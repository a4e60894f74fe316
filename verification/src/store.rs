//! The store: four tables, two secondary indices, and the transactional
//! operations over them.
//!
//! All writes of one call are applied together or not at all: every operation
//! validates first and mutates only once every check has passed, so a failed
//! call leaves the store exactly as it found it.  The consistency invariants
//! are collected in [`QAndANear::wf`], which every operation preserves.

use vstd::prelude::*;

use crate::entities::{Answer, AnswerCreateDto, DonateInfo, DonationCreateDto};
use crate::entities::{Question, QuestionCreateDto, StoreError};
use crate::table::{at_key, count_matching, distinct_keys, has_key, key_index, sum_matching};
use crate::table::{lemma_at_key_found, lemma_at_key_of_index, lemma_count_push};
use crate::table::{lemma_count_update, lemma_count_zero, lemma_has_key_push_mono};
use crate::table::{lemma_push_frame, lemma_push_new, lemma_sum_push, lemma_sum_zero};
use crate::table::{lemma_update_frame};

verus! {

/// One entry of a secondary index: the ids of the children of `key`, in
/// insertion order.
pub struct IndexBucket {
    pub key: String,
    pub ids: Vec<String>,
}

/// The store.  Fields are private: the only ways in are the operations below,
/// and they keep [`QAndANear::wf`] true.
pub struct QAndANear {
    question_table: Vec<Question>,
    answer_table: Vec<Answer>,
    donation_table: Vec<DonateInfo>,
    question_answer_index: Vec<IndexBucket>,
    answer_donation_index: Vec<IndexBucket>,
}

/// Key projection for the question table.
pub open spec fn question_key() -> spec_fn(Question) -> Seq<char> {
    |q: Question| q.question_id@
}

/// Key projection for the answer table.
pub open spec fn answer_key() -> spec_fn(Answer) -> Seq<char> {
    |a: Answer| a.answer_id@
}

/// Key projection for the donation table.
pub open spec fn donation_key() -> spec_fn(DonateInfo) -> Seq<char> {
    |d: DonateInfo| d.donate_info_id@
}

/// Key projection for an index.
pub open spec fn bucket_key() -> spec_fn(IndexBucket) -> Seq<char> {
    |b: IndexBucket| b.key@
}

/// Key projection for a sequence of id strings.
pub open spec fn string_key() -> spec_fn(String) -> Seq<char> {
    |s: String| s@
}

/// Holds of the answers that belong to question `qid`.
pub open spec fn answer_of_question(qid: Seq<char>) -> spec_fn(Answer) -> bool {
    |a: Answer| a.question_id@ == qid
}

/// Holds of the donations that belong to answer `aid`.
pub open spec fn donation_of_answer(aid: Seq<char>) -> spec_fn(DonateInfo) -> bool {
    |d: DonateInfo| d.answer_id@ == aid
}

/// A donation's amount, as a mathematical integer.
pub open spec fn donation_amount() -> spec_fn(DonateInfo) -> int {
    |d: DonateInfo| d.amount as int
}

impl QAndANear {
    /// The question table, in insertion order.
    pub closed spec fn questions(self) -> Seq<Question> {
        self.question_table@
    }

    /// The answer table, in insertion order.
    pub closed spec fn answers(self) -> Seq<Answer> {
        self.answer_table@
    }

    /// The donation table, in insertion order.
    pub closed spec fn donations(self) -> Seq<DonateInfo> {
        self.donation_table@
    }

    /// The question-to-answers index.
    pub closed spec fn qa_buckets(self) -> Seq<IndexBucket> {
        self.question_answer_index@
    }

    /// The answer-to-donations index.
    pub closed spec fn ad_buckets(self) -> Seq<IndexBucket> {
        self.answer_donation_index@
    }

    /// A question with id `id` exists.
    pub open spec fn has_question(self, id: Seq<char>) -> bool {
        has_key(self.questions(), question_key(), id)
    }

    /// The question with id `id` (meaningful when `has_question`).
    pub open spec fn question_at(self, id: Seq<char>) -> Question {
        at_key(self.questions(), question_key(), id)
    }

    /// An answer with id `id` exists.
    pub open spec fn has_answer(self, id: Seq<char>) -> bool {
        has_key(self.answers(), answer_key(), id)
    }

    /// The answer with id `id` (meaningful when `has_answer`).
    pub open spec fn answer_at(self, id: Seq<char>) -> Answer {
        at_key(self.answers(), answer_key(), id)
    }

    /// A donation with id `id` exists.
    pub open spec fn has_donation(self, id: Seq<char>) -> bool {
        has_key(self.donations(), donation_key(), id)
    }

    /// The donation with id `id` (meaningful when `has_donation`).
    pub open spec fn donation_at(self, id: Seq<char>) -> DonateInfo {
        at_key(self.donations(), donation_key(), id)
    }

    /// Question `qid` has an answer index bucket.
    pub open spec fn has_answer_bucket(self, qid: Seq<char>) -> bool {
        has_key(self.qa_buckets(), bucket_key(), qid)
    }

    /// The answer ids recorded for question `qid`, in insertion order
    /// (meaningful when `has_answer_bucket`).
    pub open spec fn answer_ids_of(self, qid: Seq<char>) -> Seq<String> {
        at_key(self.qa_buckets(), bucket_key(), qid).ids@
    }

    /// Answer `aid` has a donation index bucket.
    pub open spec fn has_donation_bucket(self, aid: Seq<char>) -> bool {
        has_key(self.ad_buckets(), bucket_key(), aid)
    }

    /// The donation ids recorded for answer `aid`, in insertion order
    /// (meaningful when `has_donation_bucket`).
    pub open spec fn donation_ids_of(self, aid: Seq<char>) -> Seq<String> {
        at_key(self.ad_buckets(), bucket_key(), aid).ids@
    }

    /// How many stored answers belong to question `qid`.
    pub open spec fn answer_count(self, qid: Seq<char>) -> int {
        count_matching(self.answers(), answer_of_question(qid))
    }

    /// The sum of the amounts of all stored donations to answer `aid`.
    pub open spec fn donation_sum(self, aid: Seq<char>) -> int {
        sum_matching(self.donations(), donation_of_answer(aid), donation_amount())
    }

    /// Ids are unique within each table and each index.
    pub open spec fn wf_distinct(self) -> bool {
        &&& distinct_keys(self.questions(), question_key())
        &&& distinct_keys(self.answers(), answer_key())
        &&& distinct_keys(self.donations(), donation_key())
        &&& distinct_keys(self.qa_buckets(), bucket_key())
        &&& distinct_keys(self.ad_buckets(), bucket_key())
    }

    /// Every answer refers to an existing question; every donation refers to
    /// an existing answer.
    pub open spec fn wf_references(self) -> bool {
        &&& forall|i: int|
            0 <= i < self.answers().len() ==> self.has_question(
                (#[trigger] self.answers()[i]).question_id@,
            )
        &&& forall|i: int|
            0 <= i < self.donations().len() ==> self.has_answer(
                (#[trigger] self.donations()[i]).answer_id@,
            )
    }

    /// An answer index bucket exists exactly for the stored questions, and a
    /// donation index bucket exactly for the stored answers.
    pub open spec fn wf_bucket_keys(self) -> bool {
        &&& forall|i: int|
            0 <= i < self.qa_buckets().len() ==> self.has_question(
                (#[trigger] self.qa_buckets()[i]).key@,
            )
        &&& forall|i: int|
            0 <= i < self.questions().len() ==> self.has_answer_bucket(
                (#[trigger] self.questions()[i]).question_id@,
            )
        &&& forall|i: int|
            0 <= i < self.ad_buckets().len() ==> self.has_answer(
                (#[trigger] self.ad_buckets()[i]).key@,
            )
        &&& forall|i: int|
            0 <= i < self.answers().len() ==> self.has_donation_bucket(
                (#[trigger] self.answers()[i]).answer_id@,
            )
    }

    /// Each id listed in an answer index bucket names a stored answer of that
    /// bucket's question; each stored answer is listed in its question's
    /// bucket; no bucket lists an id twice.
    pub open spec fn wf_qa_buckets(self) -> bool {
        &&& forall|i: int, k: int|
            0 <= i < self.qa_buckets().len() && 0 <= k < self.qa_buckets()[i].ids@.len() ==> {
                let id = (#[trigger] self.qa_buckets()[i].ids@[k])@;
                self.has_answer(id) && self.answer_at(id).question_id@
                    == self.qa_buckets()[i].key@
            }
        &&& forall|j: int|
            0 <= j < self.answers().len() ==> has_key(
                self.answer_ids_of((#[trigger] self.answers()[j]).question_id@),
                string_key(),
                self.answers()[j].answer_id@,
            )
        &&& forall|i: int, k1: int, k2: int|
            0 <= i < self.qa_buckets().len() && 0 <= k1 < k2 < self.qa_buckets()[i].ids@.len()
                ==> (#[trigger] self.qa_buckets()[i].ids@[k1])@
                != (#[trigger] self.qa_buckets()[i].ids@[k2])@
    }

    /// The mirror of `wf_qa_buckets` for donations.
    pub open spec fn wf_ad_buckets(self) -> bool {
        &&& forall|i: int, k: int|
            0 <= i < self.ad_buckets().len() && 0 <= k < self.ad_buckets()[i].ids@.len() ==> {
                let id = (#[trigger] self.ad_buckets()[i].ids@[k])@;
                self.has_donation(id) && self.donation_at(id).answer_id@
                    == self.ad_buckets()[i].key@
            }
        &&& forall|j: int|
            0 <= j < self.donations().len() ==> has_key(
                self.donation_ids_of((#[trigger] self.donations()[j]).answer_id@),
                string_key(),
                self.donations()[j].donate_info_id@,
            )
        &&& forall|i: int, k1: int, k2: int|
            0 <= i < self.ad_buckets().len() && 0 <= k1 < k2 < self.ad_buckets()[i].ids@.len()
                ==> (#[trigger] self.ad_buckets()[i].ids@[k1])@
                != (#[trigger] self.ad_buckets()[i].ids@[k2])@
    }

    /// Each question's answer counter equals the number of stored answers
    /// that refer to it; each answer's donated total equals the sum of the
    /// amounts of the stored donations that refer to it.
    pub open spec fn wf_aggregates(self) -> bool {
        &&& forall|i: int|
            0 <= i < self.questions().len() ==> (#[trigger] self.questions()[i]).total_answer
                as int == self.answer_count(self.questions()[i].question_id@)
        &&& forall|i: int|
            0 <= i < self.answers().len() ==> (#[trigger] self.answers()[i]).total_amount_donate
                as int == self.donation_sum(self.answers()[i].answer_id@)
    }

    /// The store's consistency invariants: established by `default`, required
    /// and preserved by every operation.
    pub open spec fn wf(self) -> bool {
        &&& self.wf_distinct()
        &&& self.wf_references()
        &&& self.wf_bucket_keys()
        &&& self.wf_qa_buckets()
        &&& self.wf_ad_buckets()
        &&& self.wf_aggregates()
    }
}

impl Default for QAndANear {
    /// An empty store.
    fn default() -> (s: Self)
        ensures
            s.wf(),
            s.questions() == Seq::<Question>::empty(),
            s.answers() == Seq::<Answer>::empty(),
            s.donations() == Seq::<DonateInfo>::empty(),
            s.qa_buckets() == Seq::<IndexBucket>::empty(),
            s.ad_buckets() == Seq::<IndexBucket>::empty(),
    {
        QAndANear {
            question_table: Vec::new(),
            answer_table: Vec::new(),
            donation_table: Vec::new(),
            question_answer_index: Vec::new(),
            answer_donation_index: Vec::new(),
        }
    }
}

impl QAndANear {
    /// Index of the question with id `id`, if any.
    fn find_question_index(&self, id: &String) -> (r: Option<usize>)
        ensures
            match r {
                Some(i) => i < self.questions().len() && self.questions()[i as int].question_id@
                    == id@,
                None => !self.has_question(id@),
            },
    {
        let mut i: usize = 0;
        while i < self.question_table.len()
            invariant
                i <= self.questions().len(),
                forall|j: int| 0 <= j < i ==> (#[trigger] self.questions()[j]).question_id@ != id@,
            decreases self.questions().len() - i,
        {
            if self.question_table[i].question_id == *id {
                return Some(i);
            }
            i += 1;
        }
        None
    }

    /// Index of the answer with id `id`, if any.
    fn find_answer_index(&self, id: &String) -> (r: Option<usize>)
        ensures
            match r {
                Some(i) => i < self.answers().len() && self.answers()[i as int].answer_id@ == id@,
                None => !self.has_answer(id@),
            },
    {
        let mut i: usize = 0;
        while i < self.answer_table.len()
            invariant
                i <= self.answers().len(),
                forall|j: int| 0 <= j < i ==> (#[trigger] self.answers()[j]).answer_id@ != id@,
            decreases self.answers().len() - i,
        {
            if self.answer_table[i].answer_id == *id {
                return Some(i);
            }
            i += 1;
        }
        None
    }

    /// Index of the donation with id `id`, if any.
    fn find_donation_index(&self, id: &String) -> (r: Option<usize>)
        ensures
            match r {
                Some(i) => i < self.donations().len() && self.donations()[i as int].donate_info_id@
                    == id@,
                None => !self.has_donation(id@),
            },
    {
        let mut i: usize = 0;
        while i < self.donation_table.len()
            invariant
                i <= self.donations().len(),
                forall|j: int|
                    0 <= j < i ==> (#[trigger] self.donations()[j]).donate_info_id@ != id@,
            decreases self.donations().len() - i,
        {
            if self.donation_table[i].donate_info_id == *id {
                return Some(i);
            }
            i += 1;
        }
        None
    }

    /// Index of the bucket for `key` in the question-to-answers index.
    fn find_qa_bucket_index(&self, key: &String) -> (r: Option<usize>)
        ensures
            match r {
                Some(i) => i < self.qa_buckets().len() && self.qa_buckets()[i as int].key@ == key@,
                None => !self.has_answer_bucket(key@),
            },
    {
        let mut i: usize = 0;
        while i < self.question_answer_index.len()
            invariant
                i <= self.qa_buckets().len(),
                forall|j: int| 0 <= j < i ==> (#[trigger] self.qa_buckets()[j]).key@ != key@,
            decreases self.qa_buckets().len() - i,
        {
            if self.question_answer_index[i].key == *key {
                return Some(i);
            }
            i += 1;
        }
        None
    }

    /// Index of the bucket for `key` in the answer-to-donations index.
    fn find_ad_bucket_index(&self, key: &String) -> (r: Option<usize>)
        ensures
            match r {
                Some(i) => i < self.ad_buckets().len() && self.ad_buckets()[i as int].key@ == key@,
                None => !self.has_donation_bucket(key@),
            },
    {
        let mut i: usize = 0;
        while i < self.answer_donation_index.len()
            invariant
                i <= self.ad_buckets().len(),
                forall|j: int| 0 <= j < i ==> (#[trigger] self.ad_buckets()[j]).key@ != key@,
            decreases self.ad_buckets().len() - i,
        {
            if self.answer_donation_index[i].key == *key {
                return Some(i);
            }
            i += 1;
        }
        None
    }

    /// Creates a question.  No validation is performed on the request's
    /// strings: any titles and contents are accepted, empty ones included.
    /// `fresh_id`, `creator_id` and `now` come from the store's external
    /// collaborators (id generator, identity provider, clock).  The only
    /// failure is a `fresh_id` that already names a question, an
    /// id-generation defect; the store is then left unchanged.
    pub fn create_question(
        &mut self,
        question: QuestionCreateDto,
        fresh_id: String,
        creator_id: String,
        now: i64,
    ) -> (r: Result<Question, StoreError>)
        requires
            old(self).wf(),
        ensures
            final(self).wf(),
            old(self).has_question(fresh_id@) ==> r == Err::<Question, StoreError>(
                StoreError::DuplicateId,
            ) && *final(self) == *old(self),
            !old(self).has_question(fresh_id@) ==> match r {
                Ok(q) => {
                    &&& q.question_id@ == fresh_id@
                    &&& q.title@ == question.title@
                    &&& q.content@ == question.content@
                    &&& q.total_vote == 0
                    &&& q.total_answer == 0
                    &&& q.created_time == now
                    &&& q.creator_id@ == creator_id@
                    &&& final(self).questions() == old(self).questions().push(q)
                    &&& final(self).answers() == old(self).answers()
                    &&& final(self).donations() == old(self).donations()
                    &&& final(self).ad_buckets() == old(self).ad_buckets()
                    &&& final(self).has_answer_bucket(fresh_id@)
                    &&& final(self).answer_ids_of(fresh_id@) == Seq::<String>::empty()
                    &&& forall|id: Seq<char>|
                        id != fresh_id@ ==> #[trigger] final(self).has_answer_bucket(id)
                            == old(self).has_answer_bucket(id)
                    &&& forall|id: Seq<char>|
                        id != fresh_id@ && old(self).has_answer_bucket(id)
                            ==> #[trigger] final(self).answer_ids_of(id) == old(
                            self,
                        ).answer_ids_of(id)
                },
                Err(_) => false,
            },
    {
        if self.find_question_index(&fresh_id).is_some() {
            return Err(StoreError::DuplicateId);
        }
        let q = Question {
            question_id: fresh_id.clone(),
            title: question.title,
            content: question.content,
            total_vote: 0,
            total_answer: 0,
            created_time: now,
            creator_id,
        };
        let bucket = IndexBucket { key: fresh_id, ids: Vec::new() };
        self.question_answer_index.push(bucket);
        let stored = q.clone();
        self.question_table.push(stored);
        proof {
            self.lemma_create_question_wf(*old(self), q);
        }
        Ok(q)
    }

    /// `create_question` preserves the invariants: `new` extends `prev` by
    /// one fresh question and its empty answer bucket.
    proof fn lemma_create_question_wf(self, prev: Self, q: Question)
        requires
            prev.wf(),
            !prev.has_question(q.question_id@),
            q.total_answer == 0,
            self.questions() == prev.questions().push(q),
            self.answers() == prev.answers(),
            self.donations() == prev.donations(),
            self.ad_buckets() == prev.ad_buckets(),
            self.qa_buckets().len() == prev.qa_buckets().len() + 1,
            forall|i: int|
                0 <= i < prev.qa_buckets().len() ==> self.qa_buckets()[i] == prev.qa_buckets()[i],
            self.qa_buckets().last().key@ == q.question_id@,
            self.qa_buckets().last().ids@.len() == 0,
        ensures
            self.wf(),
            self.has_answer_bucket(q.question_id@),
            self.answer_ids_of(q.question_id@) == Seq::<String>::empty(),
            forall|id: Seq<char>|
                id != q.question_id@ ==> #[trigger] self.has_answer_bucket(id)
                    == prev.has_answer_bucket(id),
            forall|id: Seq<char>|
                id != q.question_id@ && prev.has_answer_bucket(id)
                    ==> #[trigger] self.answer_ids_of(id) == prev.answer_ids_of(id),
    {
        let qid = q.question_id@;
        let newb = self.qa_buckets().last();
        assert(self.qa_buckets() =~= prev.qa_buckets().push(newb));

        // The fresh id has no bucket yet: a bucket's key always names a question.
        if prev.has_answer_bucket(qid) {
            let i = key_index(prev.qa_buckets(), bucket_key(), qid);
            assert(prev.has_question(prev.qa_buckets()[i].key@));
        }
        lemma_push_new(prev.questions(), question_key(), q);
        lemma_push_new(prev.qa_buckets(), bucket_key(), newb);

        // Frames for the untouched buckets and the bucket-key clauses.
        assert forall|id: Seq<char>| id != qid implies #[trigger] self.has_answer_bucket(id)
            == prev.has_answer_bucket(id) by {
            lemma_push_frame(prev.qa_buckets(), bucket_key(), newb, id);
        }
        assert forall|id: Seq<char>| id != qid && prev.has_answer_bucket(id)
            implies #[trigger] self.answer_ids_of(id) == prev.answer_ids_of(id) by {
            lemma_push_frame(prev.qa_buckets(), bucket_key(), newb, id);
        }

        // No existing row carries the fresh id.
        assert forall|i: int| 0 <= i < prev.answers().len() implies (
        #[trigger] prev.answers()[i]).question_id@ != qid by {
            assert(prev.has_question(prev.answers()[i].question_id@));
        }

        // References and bucket keys survive the push of one question.
        assert forall|i: int| 0 <= i < self.answers().len() implies self.has_question(
            (#[trigger] self.answers()[i]).question_id@,
        ) by {
            lemma_has_key_push_mono(
                prev.questions(),
                question_key(),
                q,
                prev.answers()[i].question_id@,
            );
        }
        assert forall|i: int| 0 <= i < self.qa_buckets().len() implies self.has_question(
            (#[trigger] self.qa_buckets()[i]).key@,
        ) by {
            if i < prev.qa_buckets().len() {
                lemma_has_key_push_mono(
                    prev.questions(),
                    question_key(),
                    q,
                    prev.qa_buckets()[i].key@,
                );
            }
        }
        assert forall|i: int| 0 <= i < self.questions().len() implies self.has_answer_bucket(
            (#[trigger] self.questions()[i]).question_id@,
        ) by {
            if i < prev.questions().len() {
                assert(self.questions()[i] == prev.questions()[i]);
                assert(prev.has_answer_bucket(prev.questions()[i].question_id@));
                lemma_has_key_push_mono(
                    prev.qa_buckets(),
                    bucket_key(),
                    newb,
                    prev.questions()[i].question_id@,
                );
            } else {
                assert(self.questions()[i] == q);
            }
        }

        // Bucket contents: old buckets are unchanged, the new one is empty.
        assert forall|i: int, k: int|
            0 <= i < self.qa_buckets().len() && 0 <= k < self.qa_buckets()[i].ids@.len() implies {
                let id = (#[trigger] self.qa_buckets()[i].ids@[k])@;
                self.has_answer(id) && self.answer_at(id).question_id@
                    == self.qa_buckets()[i].key@
            } by {
            assert(i < prev.qa_buckets().len());
            assert(self.qa_buckets()[i] == prev.qa_buckets()[i]);
        }
        assert forall|j: int| 0 <= j < self.answers().len() implies has_key(
            self.answer_ids_of((#[trigger] self.answers()[j]).question_id@),
            string_key(),
            self.answers()[j].answer_id@,
        ) by {
            let aqid = prev.answers()[j].question_id@;
            assert(aqid != qid);
            assert(prev.has_answer_bucket(aqid));
            lemma_push_frame(prev.qa_buckets(), bucket_key(), newb, aqid);
        }

        // Aggregates: the untouched questions keep their counts; the new
        // question has no answers.
        assert forall|i: int| 0 <= i < self.questions().len() implies (
        #[trigger] self.questions()[i]).total_answer as int == self.answer_count(
            self.questions()[i].question_id@,
        ) by {
            if i == prev.questions().len() {
                lemma_count_zero(prev.answers(), answer_of_question(qid));
            }
        }
    }

    /// Copies a vector of id strings.
    fn clone_string_vec(v: &Vec<String>) -> (r: Vec<String>)
        ensures
            r@ == v@,
    {
        let mut r: Vec<String> = Vec::new();
        let mut i: usize = 0;
        while i < v.len()
            invariant
                i <= v@.len(),
                r@ == v@.subrange(0, i as int),
            decreases v@.len() - i,
        {
            r.push(v[i].clone());
            proof {
                assert(r@ =~= v@.subrange(0, i + 1 as int));
            }
            i += 1;
        }
        proof {
            assert(r@ =~= v@);
        }
        r
    }

    /// The question `qid` can take one more answer without its counter
    /// leaving `i32`.
    pub open spec fn can_count_answer(self, qid: Seq<char>) -> bool {
        self.has_question(qid) ==> self.question_at(qid).total_answer < i32::MAX
    }

    /// Creates an answer to the question `answer.question_id`, as one atomic
    /// unit: the question's answer counter, the question's answer bucket, the
    /// new answer's empty donation bucket and the answer row all change
    /// together, or — on any failure — nothing changes at all.
    ///
    /// Fails with `QuestionNotFound` exactly when the question does not
    /// exist, and with `DuplicateId` exactly when `fresh_id` already names an
    /// answer (an id-generation defect).  A missing answer bucket for an
    /// existing question would be `InvariantViolation`, but the invariants
    /// rule that out.
    pub fn create_answer(
        &mut self,
        answer: AnswerCreateDto,
        fresh_id: String,
        creator_id: String,
        now: i64,
    ) -> (r: Result<Answer, StoreError>)
        requires
            old(self).wf(),
            old(self).can_count_answer(answer.question_id@),
        ensures
            final(self).wf(),
            !old(self).has_question(answer.question_id@) ==> r == Err::<Answer, StoreError>(
                StoreError::QuestionNotFound,
            ) && *final(self) == *old(self),
            old(self).has_question(answer.question_id@) && old(self).has_answer(fresh_id@)
                ==> r == Err::<Answer, StoreError>(StoreError::DuplicateId) && *final(self)
                == *old(self),
            old(self).has_question(answer.question_id@) && !old(self).has_answer(fresh_id@)
                ==> match r {
                Ok(a) => {
                    &&& a.answer_id@ == fresh_id@
                    &&& a.question_id@ == answer.question_id@
                    &&& a.content@ == answer.content@
                    &&& a.total_vote == 0
                    &&& a.total_amount_donate == 0
                    &&& a.created_time == now
                    &&& a.creator_id@ == creator_id@
                    &&& final(self).answers() == old(self).answers().push(a)
                    &&& final(self).donations() == old(self).donations()
                    &&& final(self).questions().len() == old(self).questions().len()
                    &&& forall|id: Seq<char>| #[trigger]
                        final(self).has_question(id) == old(self).has_question(id)
                    &&& final(self).question_at(answer.question_id@).total_answer as int == old(
                        self,
                    ).question_at(answer.question_id@).total_answer + 1
                    &&& final(self).question_at(answer.question_id@).question_id == old(
                        self,
                    ).question_at(answer.question_id@).question_id
                    &&& final(self).question_at(answer.question_id@).title == old(
                        self,
                    ).question_at(answer.question_id@).title
                    &&& final(self).question_at(answer.question_id@).content == old(
                        self,
                    ).question_at(answer.question_id@).content
                    &&& final(self).question_at(answer.question_id@).total_vote == old(
                        self,
                    ).question_at(answer.question_id@).total_vote
                    &&& final(self).question_at(answer.question_id@).created_time == old(
                        self,
                    ).question_at(answer.question_id@).created_time
                    &&& final(self).question_at(answer.question_id@).creator_id == old(
                        self,
                    ).question_at(answer.question_id@).creator_id
                    &&& forall|id: Seq<char>|
                        id != answer.question_id@ && old(self).has_question(id)
                            ==> #[trigger] final(self).question_at(id) == old(self).question_at(id)
                    &&& final(self).answer_ids_of(answer.question_id@) == old(self).answer_ids_of(
                        answer.question_id@,
                    ).push(fresh_id)
                    &&& forall|id: Seq<char>| #[trigger]
                        final(self).has_answer_bucket(id) == old(self).has_answer_bucket(id)
                    &&& forall|id: Seq<char>|
                        id != answer.question_id@ && old(self).has_answer_bucket(id)
                            ==> #[trigger] final(self).answer_ids_of(id) == old(
                            self,
                        ).answer_ids_of(id)
                    &&& final(self).has_donation_bucket(fresh_id@)
                    &&& final(self).donation_ids_of(fresh_id@) == Seq::<String>::empty()
                    &&& forall|id: Seq<char>|
                        id != fresh_id@ ==> #[trigger] final(self).has_donation_bucket(id) == old(
                            self,
                        ).has_donation_bucket(id)
                    &&& forall|id: Seq<char>|
                        id != fresh_id@ && old(self).has_donation_bucket(id)
                            ==> #[trigger] final(self).donation_ids_of(id) == old(
                            self,
                        ).donation_ids_of(id)
                },
                Err(_) => false,
            },
    {
        let ghost prev = *old(self);
        let ghost qid = answer.question_id@;
        let qi = match self.find_question_index(&answer.question_id) {
            Some(i) => i,
            None => {
                return Err(StoreError::QuestionNotFound);
            },
        };
        let bi = match self.find_qa_bucket_index(&answer.question_id) {
            Some(i) => i,
            None => {
                // Unreachable: every stored question has an answer bucket.
                proof {
                    assert(prev.has_answer_bucket(prev.questions()[qi as int].question_id@));
                }
                return Err(StoreError::InvariantViolation);
            },
        };
        if self.find_answer_index(&fresh_id).is_some() {
            return Err(StoreError::DuplicateId);
        }
        proof {
            lemma_at_key_of_index(prev.questions(), question_key(), qi as int);
            lemma_at_key_of_index(prev.qa_buckets(), bucket_key(), bi as int);
        }
        // All checks passed: apply every write of this call.
        let mut new_q = self.question_table[qi].clone();
        new_q.total_answer = new_q.total_answer + 1;
        self.question_table[qi] = new_q;
        let mut new_ids = Self::clone_string_vec(&self.question_answer_index[bi].ids);
        new_ids.push(fresh_id.clone());
        let new_bucket = IndexBucket { key: self.question_answer_index[bi].key.clone(), ids: new_ids };
        self.question_answer_index[bi] = new_bucket;
        self.answer_donation_index.push(
            IndexBucket { key: fresh_id.clone(), ids: Vec::new() },
        );
        let a = Answer {
            answer_id: fresh_id,
            question_id: answer.question_id,
            content: answer.content,
            total_vote: 0,
            total_amount_donate: 0,
            created_time: now,
            creator_id,
        };
        self.answer_table.push(a.clone());
        proof {
            self.lemma_create_answer_wf(prev, qi as int, bi as int, a);
        }
        Ok(a)
    }

    /// `create_answer` preserves the invariants: `new` is `prev` with one
    /// question counter raised, the new answer row, its id appended to its
    /// question's bucket, and a fresh empty donation bucket.
    proof fn lemma_create_answer_wf(self, prev: Self, qi: int, bi: int, a: Answer)
        requires
            prev.wf(),
            0 <= qi < prev.questions().len(),
            0 <= bi < prev.qa_buckets().len(),
            prev.questions()[qi].question_id@ == a.question_id@,
            prev.qa_buckets()[bi].key@ == a.question_id@,
            !prev.has_answer(a.answer_id@),
            a.total_amount_donate == 0,
            self.questions().len() == prev.questions().len(),
            forall|i: int|
                0 <= i < prev.questions().len() && i != qi ==> #[trigger] self.questions()[i]
                    == prev.questions()[i],
            self.questions()[qi].question_id == prev.questions()[qi].question_id,
            self.questions()[qi].total_answer == prev.questions()[qi].total_answer + 1,
            self.answers() == prev.answers().push(a),
            self.donations() == prev.donations(),
            self.qa_buckets().len() == prev.qa_buckets().len(),
            forall|i: int|
                0 <= i < prev.qa_buckets().len() && i != bi ==> #[trigger] self.qa_buckets()[i]
                    == prev.qa_buckets()[i],
            self.qa_buckets()[bi].key@ == prev.qa_buckets()[bi].key@,
            self.qa_buckets()[bi].ids@ == prev.qa_buckets()[bi].ids@.push(a.answer_id),
            self.ad_buckets().len() == prev.ad_buckets().len() + 1,
            forall|i: int|
                0 <= i < prev.ad_buckets().len() ==> #[trigger] self.ad_buckets()[i]
                    == prev.ad_buckets()[i],
            self.ad_buckets().last().key@ == a.answer_id@,
            self.ad_buckets().last().ids@.len() == 0,
        ensures
            self.wf(),
            forall|id: Seq<char>| #[trigger] self.has_question(id) == prev.has_question(id),
            self.question_at(a.question_id@) == self.questions()[qi],
            prev.question_at(a.question_id@) == prev.questions()[qi],
            forall|id: Seq<char>|
                id != a.question_id@ && prev.has_question(id) ==> #[trigger] self.question_at(id)
                    == prev.question_at(id),
            self.answer_ids_of(a.question_id@) == prev.answer_ids_of(a.question_id@).push(
                a.answer_id,
            ),
            forall|id: Seq<char>| #[trigger]
                self.has_answer_bucket(id) == prev.has_answer_bucket(id),
            forall|id: Seq<char>|
                id != a.question_id@ && prev.has_answer_bucket(id)
                    ==> #[trigger] self.answer_ids_of(id) == prev.answer_ids_of(id),
            self.has_donation_bucket(a.answer_id@),
            self.donation_ids_of(a.answer_id@) == Seq::<String>::empty(),
            forall|id: Seq<char>|
                id != a.answer_id@ ==> #[trigger] self.has_donation_bucket(id)
                    == prev.has_donation_bucket(id),
            forall|id: Seq<char>|
                id != a.answer_id@ && prev.has_donation_bucket(id)
                    ==> #[trigger] self.donation_ids_of(id) == prev.donation_ids_of(id),
    {
        let qid = a.question_id@;
        let fid = a.answer_id@;
        let q2 = self.questions()[qi];
        let b2 = self.qa_buckets()[bi];
        let nb = self.ad_buckets().last();
        assert(self.questions() =~= prev.questions().update(qi, q2));
        assert(self.qa_buckets() =~= prev.qa_buckets().update(bi, b2));
        assert(self.ad_buckets() =~= prev.ad_buckets().push(nb));

        // The fresh answer id has no donation bucket yet.
        if has_key(prev.ad_buckets(), bucket_key(), fid) {
            lemma_at_key_found(prev.ad_buckets(), bucket_key(), fid);
            let i = key_index(prev.ad_buckets(), bucket_key(), fid);
            assert(prev.has_answer(prev.ad_buckets()[i].key@));
        }
        lemma_push_new(prev.answers(), answer_key(), a);
        lemma_push_new(prev.ad_buckets(), bucket_key(), nb);

        // Frames over the two updated tables, for every key.
        assert forall|id: Seq<char>| #[trigger] self.has_question(id) == prev.has_question(
            id,
        ) by {
            lemma_update_frame(prev.questions(), question_key(), qi, q2, id);
        }
        assert forall|id: Seq<char>|
            id != qid && prev.has_question(id) implies #[trigger] self.question_at(id)
            == prev.question_at(id) by {
            lemma_update_frame(prev.questions(), question_key(), qi, q2, id);
        }
        assert forall|id: Seq<char>| #[trigger] self.has_answer_bucket(id)
            == prev.has_answer_bucket(id) by {
            lemma_update_frame(prev.qa_buckets(), bucket_key(), bi, b2, id);
        }
        assert forall|id: Seq<char>|
            id != qid && prev.has_answer_bucket(id) implies #[trigger] self.answer_ids_of(id)
            == prev.answer_ids_of(id) by {
            lemma_update_frame(prev.qa_buckets(), bucket_key(), bi, b2, id);
        }
        assert forall|id: Seq<char>|
            id != fid implies #[trigger] self.has_donation_bucket(id) == prev.has_donation_bucket(
                id,
            ) by {
            lemma_push_frame(prev.ad_buckets(), bucket_key(), nb, id);
        }
        assert forall|id: Seq<char>|
            id != fid && prev.has_donation_bucket(id) implies #[trigger] self.donation_ids_of(id)
            == prev.donation_ids_of(id) by {
            lemma_push_frame(prev.ad_buckets(), bucket_key(), nb, id);
        }
        lemma_update_frame(prev.questions(), question_key(), qi, q2, qid);
        lemma_update_frame(prev.qa_buckets(), bucket_key(), bi, b2, qid);
        lemma_at_key_of_index(prev.questions(), question_key(), qi);
        lemma_at_key_of_index(prev.qa_buckets(), bucket_key(), bi);
        lemma_at_key_of_index(self.questions(), question_key(), qi);
        lemma_at_key_of_index(self.qa_buckets(), bucket_key(), bi);
        assert(self.donation_ids_of(fid) =~= Seq::<String>::empty());

        // References stay valid.
        assert forall|i: int| 0 <= i < self.answers().len() implies self.has_question(
            (#[trigger] self.answers()[i]).question_id@,
        ) by {
            if i < prev.answers().len() {
                assert(prev.has_question(prev.answers()[i].question_id@));
            } else {
                assert(self.answers()[i] == a);
                assert(prev.questions()[qi].question_id@ == qid);
                assert(prev.has_question(qid));
            }
        }
        assert forall|i: int| 0 <= i < self.donations().len() implies self.has_answer(
            (#[trigger] self.donations()[i]).answer_id@,
        ) by {
            assert(prev.has_answer(prev.donations()[i].answer_id@));
            lemma_has_key_push_mono(
                prev.answers(),
                answer_key(),
                a,
                prev.donations()[i].answer_id@,
            );
        }

        // Bucket keys still match the tables.
        assert forall|i: int| 0 <= i < self.qa_buckets().len() implies self.has_question(
            (#[trigger] self.qa_buckets()[i]).key@,
        ) by {
            assert(self.qa_buckets()[i].key@ == prev.qa_buckets()[i].key@);
            assert(prev.has_question(prev.qa_buckets()[i].key@));
        }
        assert forall|i: int| 0 <= i < self.questions().len() implies self.has_answer_bucket(
            (#[trigger] self.questions()[i]).question_id@,
        ) by {
            assert(self.questions()[i].question_id@ == prev.questions()[i].question_id@);
            assert(prev.has_answer_bucket(prev.questions()[i].question_id@));
        }
        assert forall|i: int| 0 <= i < self.ad_buckets().len() implies self.has_answer(
            (#[trigger] self.ad_buckets()[i]).key@,
        ) by {
            if i < prev.ad_buckets().len() {
                assert(prev.has_answer(prev.ad_buckets()[i].key@));
                lemma_has_key_push_mono(
                    prev.answers(),
                    answer_key(),
                    a,
                    prev.ad_buckets()[i].key@,
                );
            } else {
                assert(self.ad_buckets()[i] == nb);
            }
        }
        assert forall|i: int| 0 <= i < self.answers().len() implies self.has_donation_bucket(
            (#[trigger] self.answers()[i]).answer_id@,
        ) by {
            if i < prev.answers().len() {
                assert(prev.has_donation_bucket(prev.answers()[i].answer_id@));
                lemma_push_frame(prev.ad_buckets(), bucket_key(), nb, prev.answers()[i].answer_id@);
            } else {
                assert(self.answers()[i] == a);
            }
        }

        // Answer buckets list exactly the stored answers of their question.
        assert forall|i: int, k: int|
            0 <= i < self.qa_buckets().len() && 0 <= k < self.qa_buckets()[i].ids@.len() implies {
                let id = (#[trigger] self.qa_buckets()[i].ids@[k])@;
                self.has_answer(id) && self.answer_at(id).question_id@ == self.qa_buckets()[i].key@
            } by {
            let id = self.qa_buckets()[i].ids@[k]@;
            if i == bi && k == prev.qa_buckets()[bi].ids@.len() {
                assert(self.qa_buckets()[i].ids@[k] == a.answer_id);
                assert(self.answer_at(fid) == a);
            } else {
                assert(self.qa_buckets()[i].ids@[k] == prev.qa_buckets()[i].ids@[k]);
                assert(prev.has_answer(id) && prev.answer_at(id).question_id@
                    == prev.qa_buckets()[i].key@);
                assert(id != fid);
                lemma_push_frame(prev.answers(), answer_key(), a, id);
            }
        }
        assert forall|j: int| 0 <= j < self.answers().len() implies has_key(
            self.answer_ids_of((#[trigger] self.answers()[j]).question_id@),
            string_key(),
            self.answers()[j].answer_id@,
        ) by {
            if j < prev.answers().len() {
                let aj = prev.answers()[j];
                assert(has_key(prev.answer_ids_of(aj.question_id@), string_key(), aj.answer_id@));
                if aj.question_id@ == qid {
                    lemma_has_key_push_mono(
                        prev.answer_ids_of(qid),
                        string_key(),
                        a.answer_id,
                        aj.answer_id@,
                    );
                } else {
                    assert(prev.has_answer_bucket(aj.question_id@));
                }
            } else {
                assert(self.answers()[j] == a);
                let n = prev.qa_buckets()[bi].ids@.len() as int;
                assert(self.answer_ids_of(qid)[n] == a.answer_id);
                assert(has_key(self.answer_ids_of(qid), string_key(), fid));
            }
        }
        assert forall|i: int, k1: int, k2: int|
            0 <= i < self.qa_buckets().len() && 0 <= k1 < k2 < self.qa_buckets()[i].ids@.len()
            implies (#[trigger] self.qa_buckets()[i].ids@[k1])@
            != (#[trigger] self.qa_buckets()[i].ids@[k2])@ by {
            if i == bi && k2 == prev.qa_buckets()[bi].ids@.len() {
                assert(self.qa_buckets()[i].ids@[k1] == prev.qa_buckets()[i].ids@[k1]);
                let id1 = prev.qa_buckets()[i].ids@[k1]@;
                assert(prev.has_answer(id1));
                assert(self.qa_buckets()[i].ids@[k2] == a.answer_id);
            } else {
                assert(self.qa_buckets()[i].ids@[k1] == prev.qa_buckets()[i].ids@[k1]);
                assert(self.qa_buckets()[i].ids@[k2] == prev.qa_buckets()[i].ids@[k2]);
            }
        }

        // Donation buckets are untouched but for the new empty one.
        assert forall|i: int, k: int|
            0 <= i < self.ad_buckets().len() && 0 <= k < self.ad_buckets()[i].ids@.len() implies {
                let id = (#[trigger] self.ad_buckets()[i].ids@[k])@;
                self.has_donation(id) && self.donation_at(id).answer_id@
                    == self.ad_buckets()[i].key@
            } by {
            assert(i < prev.ad_buckets().len());
            assert(self.ad_buckets()[i] == prev.ad_buckets()[i]);
        }
        assert forall|j: int| 0 <= j < self.donations().len() implies has_key(
            self.donation_ids_of((#[trigger] self.donations()[j]).answer_id@),
            string_key(),
            self.donations()[j].donate_info_id@,
        ) by {
            let dj = prev.donations()[j];
            assert(prev.has_answer(dj.answer_id@));
            assert(dj.answer_id@ != fid);
            lemma_push_frame(prev.ad_buckets(), bucket_key(), nb, dj.answer_id@);
            assert(has_key(prev.donation_ids_of(dj.answer_id@), string_key(), dj.donate_info_id@));
        }
        assert forall|i: int, k1: int, k2: int|
            0 <= i < self.ad_buckets().len() && 0 <= k1 < k2 < self.ad_buckets()[i].ids@.len()
            implies (#[trigger] self.ad_buckets()[i].ids@[k1])@
            != (#[trigger] self.ad_buckets()[i].ids@[k2])@ by {
            assert(i < prev.ad_buckets().len());
            assert(self.ad_buckets()[i] == prev.ad_buckets()[i]);
        }

        // Aggregates.
        assert forall|i: int| 0 <= i < self.questions().len() implies (
        #[trigger] self.questions()[i]).total_answer as int == self.answer_count(
            self.questions()[i].question_id@,
        ) by {
            let iqid = self.questions()[i].question_id@;
            assert(iqid == prev.questions()[i].question_id@);
            lemma_count_push(prev.answers(), answer_of_question(iqid), a);
            if i != qi {
                assert(question_key()(prev.questions()[i]) != question_key()(
                    prev.questions()[qi],
                ));
                assert(iqid != qid);
            }
        }
        assert forall|i: int| 0 <= i < self.answers().len() implies (
        #[trigger] self.answers()[i]).total_amount_donate as int == self.donation_sum(
            self.answers()[i].answer_id@,
        ) by {
            if i == prev.answers().len() {
                assert(self.answers()[i] == a);
                assert forall|j: int| 0 <= j < prev.donations().len() implies !(donation_of_answer(
                    fid,
                )(#[trigger] prev.donations()[j])) by {
                    assert(prev.has_answer(prev.donations()[j].answer_id@));
                }
                lemma_sum_zero(prev.donations(), donation_of_answer(fid), donation_amount());
            }
        }
    }

    /// The answer `aid` can take `amount` more donated units without its
    /// total leaving `u64`.
    pub open spec fn can_add_donation(self, aid: Seq<char>, amount: u64) -> bool {
        self.has_answer(aid) ==> self.answer_at(aid).total_amount_donate + amount <= u64::MAX
    }

    /// Records a donation to the answer `donation.answer_id`, as one atomic
    /// unit: the answer's donated total, the answer's donation bucket and the
    /// donation row all change together, or — on any failure — nothing
    /// changes at all.
    ///
    /// Any `amount` is accepted, zero included, as the store does not
    /// validate amounts; rejecting non-positive amounts is left to callers.
    ///
    /// Fails with `AnswerNotFound` exactly when the answer does not exist,
    /// and with `DuplicateId` exactly when `fresh_id` already names a
    /// donation (an id-generation defect).  A missing donation bucket for an
    /// existing answer would be `InvariantViolation`, but the invariants rule
    /// that out.
    pub fn donate(
        &mut self,
        donation: DonationCreateDto,
        fresh_id: String,
        creator_id: String,
        now: i64,
    ) -> (r: Result<DonateInfo, StoreError>)
        requires
            old(self).wf(),
            old(self).can_add_donation(donation.answer_id@, donation.amount),
        ensures
            final(self).wf(),
            !old(self).has_answer(donation.answer_id@) ==> r == Err::<DonateInfo, StoreError>(
                StoreError::AnswerNotFound,
            ) && *final(self) == *old(self),
            old(self).has_answer(donation.answer_id@) && old(self).has_donation(fresh_id@)
                ==> r == Err::<DonateInfo, StoreError>(StoreError::DuplicateId) && *final(self)
                == *old(self),
            old(self).has_answer(donation.answer_id@) && !old(self).has_donation(fresh_id@)
                ==> match r {
                Ok(d) => {
                    &&& d.donate_info_id@ == fresh_id@
                    &&& d.answer_id@ == donation.answer_id@
                    &&& d.donate_creator_id@ == creator_id@
                    &&& d.created_time == now
                    &&& d.amount == donation.amount
                    &&& final(self).donations() == old(self).donations().push(d)
                    &&& final(self).questions() == old(self).questions()
                    &&& final(self).qa_buckets() == old(self).qa_buckets()
                    &&& final(self).answers().len() == old(self).answers().len()
                    &&& forall|id: Seq<char>| #[trigger]
                        final(self).has_answer(id) == old(self).has_answer(id)
                    &&& final(self).answer_at(donation.answer_id@).total_amount_donate as int
                        == old(self).answer_at(donation.answer_id@).total_amount_donate
                        + donation.amount
                    &&& final(self).answer_at(donation.answer_id@).answer_id == old(
                        self,
                    ).answer_at(donation.answer_id@).answer_id
                    &&& final(self).answer_at(donation.answer_id@).question_id == old(
                        self,
                    ).answer_at(donation.answer_id@).question_id
                    &&& final(self).answer_at(donation.answer_id@).content == old(self).answer_at(
                        donation.answer_id@,
                    ).content
                    &&& final(self).answer_at(donation.answer_id@).total_vote == old(
                        self,
                    ).answer_at(donation.answer_id@).total_vote
                    &&& final(self).answer_at(donation.answer_id@).created_time == old(
                        self,
                    ).answer_at(donation.answer_id@).created_time
                    &&& final(self).answer_at(donation.answer_id@).creator_id == old(
                        self,
                    ).answer_at(donation.answer_id@).creator_id
                    &&& forall|id: Seq<char>|
                        id != donation.answer_id@ && old(self).has_answer(id)
                            ==> #[trigger] final(self).answer_at(id) == old(self).answer_at(id)
                    &&& final(self).donation_ids_of(donation.answer_id@) == old(
                        self,
                    ).donation_ids_of(donation.answer_id@).push(fresh_id)
                    &&& forall|id: Seq<char>| #[trigger]
                        final(self).has_donation_bucket(id) == old(self).has_donation_bucket(id)
                    &&& forall|id: Seq<char>|
                        id != donation.answer_id@ && old(self).has_donation_bucket(id)
                            ==> #[trigger] final(self).donation_ids_of(id) == old(
                            self,
                        ).donation_ids_of(id)
                },
                Err(_) => false,
            },
    {
        let ghost prev = *old(self);
        let ghost aid = donation.answer_id@;
        let ai = match self.find_answer_index(&donation.answer_id) {
            Some(i) => i,
            None => {
                return Err(StoreError::AnswerNotFound);
            },
        };
        let bi = match self.find_ad_bucket_index(&donation.answer_id) {
            Some(i) => i,
            None => {
                // Unreachable: every stored answer has a donation bucket.
                proof {
                    assert(prev.has_donation_bucket(prev.answers()[ai as int].answer_id@));
                }
                return Err(StoreError::InvariantViolation);
            },
        };
        if self.find_donation_index(&fresh_id).is_some() {
            return Err(StoreError::DuplicateId);
        }
        proof {
            lemma_at_key_of_index(prev.answers(), answer_key(), ai as int);
            lemma_at_key_of_index(prev.ad_buckets(), bucket_key(), bi as int);
        }
        // All checks passed: apply every write of this call.
        let mut new_a = self.answer_table[ai].clone();
        new_a.total_amount_donate = new_a.total_amount_donate + donation.amount;
        self.answer_table[ai] = new_a;
        let mut new_ids = Self::clone_string_vec(&self.answer_donation_index[bi].ids);
        new_ids.push(fresh_id.clone());
        let new_bucket = IndexBucket {
            key: self.answer_donation_index[bi].key.clone(),
            ids: new_ids,
        };
        self.answer_donation_index[bi] = new_bucket;
        let d = DonateInfo {
            donate_info_id: fresh_id,
            answer_id: donation.answer_id,
            donate_creator_id: creator_id,
            created_time: now,
            amount: donation.amount,
        };
        self.donation_table.push(d.clone());
        proof {
            self.lemma_donate_wf(prev, ai as int, bi as int, d);
        }
        Ok(d)
    }

    /// `donate` preserves the invariants: `new` is `prev` with one answer
    /// total raised, the new donation row, and its id appended to its
    /// answer's bucket.
    proof fn lemma_donate_wf(self, prev: Self, ai: int, bi: int, d: DonateInfo)
        requires
            prev.wf(),
            0 <= ai < prev.answers().len(),
            0 <= bi < prev.ad_buckets().len(),
            prev.answers()[ai].answer_id@ == d.answer_id@,
            prev.ad_buckets()[bi].key@ == d.answer_id@,
            !prev.has_donation(d.donate_info_id@),
            self.answers().len() == prev.answers().len(),
            forall|i: int|
                0 <= i < prev.answers().len() && i != ai ==> #[trigger] self.answers()[i]
                    == prev.answers()[i],
            self.answers()[ai].answer_id == prev.answers()[ai].answer_id,
            self.answers()[ai].question_id == prev.answers()[ai].question_id,
            self.answers()[ai].total_amount_donate == prev.answers()[ai].total_amount_donate
                + d.amount,
            self.donations() == prev.donations().push(d),
            self.questions() == prev.questions(),
            self.qa_buckets() == prev.qa_buckets(),
            self.ad_buckets().len() == prev.ad_buckets().len(),
            forall|i: int|
                0 <= i < prev.ad_buckets().len() && i != bi ==> #[trigger] self.ad_buckets()[i]
                    == prev.ad_buckets()[i],
            self.ad_buckets()[bi].key@ == prev.ad_buckets()[bi].key@,
            self.ad_buckets()[bi].ids@ == prev.ad_buckets()[bi].ids@.push(d.donate_info_id),
        ensures
            self.wf(),
            forall|id: Seq<char>| #[trigger] self.has_answer(id) == prev.has_answer(id),
            self.answer_at(d.answer_id@) == self.answers()[ai],
            prev.answer_at(d.answer_id@) == prev.answers()[ai],
            forall|id: Seq<char>|
                id != d.answer_id@ && prev.has_answer(id) ==> #[trigger] self.answer_at(id)
                    == prev.answer_at(id),
            self.donation_ids_of(d.answer_id@) == prev.donation_ids_of(d.answer_id@).push(
                d.donate_info_id,
            ),
            forall|id: Seq<char>| #[trigger]
                self.has_donation_bucket(id) == prev.has_donation_bucket(id),
            forall|id: Seq<char>|
                id != d.answer_id@ && prev.has_donation_bucket(id)
                    ==> #[trigger] self.donation_ids_of(id) == prev.donation_ids_of(id),
    {
        let aid = d.answer_id@;
        let fid = d.donate_info_id@;
        let a2 = self.answers()[ai];
        let b2 = self.ad_buckets()[bi];
        assert(self.answers() =~= prev.answers().update(ai, a2));
        assert(self.ad_buckets() =~= prev.ad_buckets().update(bi, b2));

        lemma_push_new(prev.donations(), donation_key(), d);

        // Frames over the two updated tables, for every key.
        assert forall|id: Seq<char>| #[trigger] self.has_answer(id) == prev.has_answer(id) by {
            lemma_update_frame(prev.answers(), answer_key(), ai, a2, id);
        }
        assert forall|id: Seq<char>|
            id != aid && prev.has_answer(id) implies #[trigger] self.answer_at(id)
            == prev.answer_at(id) by {
            lemma_update_frame(prev.answers(), answer_key(), ai, a2, id);
        }
        assert forall|id: Seq<char>| #[trigger] self.has_donation_bucket(id)
            == prev.has_donation_bucket(id) by {
            lemma_update_frame(prev.ad_buckets(), bucket_key(), bi, b2, id);
        }
        assert forall|id: Seq<char>|
            id != aid && prev.has_donation_bucket(id) implies #[trigger] self.donation_ids_of(id)
            == prev.donation_ids_of(id) by {
            lemma_update_frame(prev.ad_buckets(), bucket_key(), bi, b2, id);
        }
        lemma_update_frame(prev.answers(), answer_key(), ai, a2, aid);
        lemma_update_frame(prev.ad_buckets(), bucket_key(), bi, b2, aid);
        lemma_at_key_of_index(prev.answers(), answer_key(), ai);
        lemma_at_key_of_index(prev.ad_buckets(), bucket_key(), bi);
        lemma_at_key_of_index(self.answers(), answer_key(), ai);
        lemma_at_key_of_index(self.ad_buckets(), bucket_key(), bi);

        // References stay valid.
        assert forall|i: int| 0 <= i < self.answers().len() implies self.has_question(
            (#[trigger] self.answers()[i]).question_id@,
        ) by {
            assert(self.answers()[i].question_id@ == prev.answers()[i].question_id@);
            assert(prev.has_question(prev.answers()[i].question_id@));
        }
        assert forall|i: int| 0 <= i < self.donations().len() implies self.has_answer(
            (#[trigger] self.donations()[i]).answer_id@,
        ) by {
            if i < prev.donations().len() {
                assert(prev.has_answer(prev.donations()[i].answer_id@));
            } else {
                assert(self.donations()[i] == d);
                assert(prev.answers()[ai].answer_id@ == aid);
                assert(prev.has_answer(aid));
            }
        }

        // Bucket keys still match the tables.
        assert forall|i: int| 0 <= i < self.qa_buckets().len() implies self.has_question(
            (#[trigger] self.qa_buckets()[i]).key@,
        ) by {
            assert(prev.has_question(prev.qa_buckets()[i].key@));
        }
        assert forall|i: int| 0 <= i < self.questions().len() implies self.has_answer_bucket(
            (#[trigger] self.questions()[i]).question_id@,
        ) by {
            assert(prev.has_answer_bucket(prev.questions()[i].question_id@));
        }
        assert forall|i: int| 0 <= i < self.ad_buckets().len() implies self.has_answer(
            (#[trigger] self.ad_buckets()[i]).key@,
        ) by {
            assert(self.ad_buckets()[i].key@ == prev.ad_buckets()[i].key@);
            assert(prev.has_answer(prev.ad_buckets()[i].key@));
        }
        assert forall|i: int| 0 <= i < self.answers().len() implies self.has_donation_bucket(
            (#[trigger] self.answers()[i]).answer_id@,
        ) by {
            assert(self.answers()[i].answer_id@ == prev.answers()[i].answer_id@);
            assert(prev.has_donation_bucket(prev.answers()[i].answer_id@));
        }

        // Answer buckets still list exactly the stored answers.
        assert forall|i: int, k: int|
            0 <= i < self.qa_buckets().len() && 0 <= k < self.qa_buckets()[i].ids@.len() implies {
                let id = (#[trigger] self.qa_buckets()[i].ids@[k])@;
                self.has_answer(id) && self.answer_at(id).question_id@ == self.qa_buckets()[i].key@
            } by {
            let id = self.qa_buckets()[i].ids@[k]@;
            assert(prev.has_answer(id) && prev.answer_at(id).question_id@
                == prev.qa_buckets()[i].key@);
            lemma_update_frame(prev.answers(), answer_key(), ai, a2, id);
            if id == aid {
                assert(self.answer_at(id).question_id@ == prev.answer_at(id).question_id@);
            }
        }
        assert forall|j: int| 0 <= j < self.answers().len() implies has_key(
            self.answer_ids_of((#[trigger] self.answers()[j]).question_id@),
            string_key(),
            self.answers()[j].answer_id@,
        ) by {
            assert(self.answers()[j].question_id@ == prev.answers()[j].question_id@);
            assert(self.answers()[j].answer_id@ == prev.answers()[j].answer_id@);
            assert(has_key(
                prev.answer_ids_of(prev.answers()[j].question_id@),
                string_key(),
                prev.answers()[j].answer_id@,
            ));
        }

        // Donation buckets list exactly the stored donations.
        assert forall|i: int, k: int|
            0 <= i < self.ad_buckets().len() && 0 <= k < self.ad_buckets()[i].ids@.len() implies {
                let id = (#[trigger] self.ad_buckets()[i].ids@[k])@;
                self.has_donation(id) && self.donation_at(id).answer_id@
                    == self.ad_buckets()[i].key@
            } by {
            let id = self.ad_buckets()[i].ids@[k]@;
            if i == bi && k == prev.ad_buckets()[bi].ids@.len() {
                assert(self.ad_buckets()[i].ids@[k] == d.donate_info_id);
                assert(self.donation_at(fid) == d);
            } else {
                assert(self.ad_buckets()[i].ids@[k] == prev.ad_buckets()[i].ids@[k]);
                assert(prev.has_donation(id) && prev.donation_at(id).answer_id@
                    == prev.ad_buckets()[i].key@);
                assert(id != fid);
                lemma_push_frame(prev.donations(), donation_key(), d, id);
            }
        }
        assert forall|j: int| 0 <= j < self.donations().len() implies has_key(
            self.donation_ids_of((#[trigger] self.donations()[j]).answer_id@),
            string_key(),
            self.donations()[j].donate_info_id@,
        ) by {
            if j < prev.donations().len() {
                let dj = prev.donations()[j];
                assert(has_key(prev.donation_ids_of(dj.answer_id@), string_key(),
                    dj.donate_info_id@));
                if dj.answer_id@ == aid {
                    lemma_has_key_push_mono(
                        prev.donation_ids_of(aid),
                        string_key(),
                        d.donate_info_id,
                        dj.donate_info_id@,
                    );
                } else {
                    assert(prev.has_donation_bucket(dj.answer_id@));
                }
            } else {
                assert(self.donations()[j] == d);
                let n = prev.ad_buckets()[bi].ids@.len() as int;
                assert(self.donation_ids_of(aid)[n] == d.donate_info_id);
                assert(has_key(self.donation_ids_of(aid), string_key(), fid));
            }
        }
        assert forall|i: int, k1: int, k2: int|
            0 <= i < self.ad_buckets().len() && 0 <= k1 < k2 < self.ad_buckets()[i].ids@.len()
            implies (#[trigger] self.ad_buckets()[i].ids@[k1])@
            != (#[trigger] self.ad_buckets()[i].ids@[k2])@ by {
            if i == bi && k2 == prev.ad_buckets()[bi].ids@.len() {
                assert(self.ad_buckets()[i].ids@[k1] == prev.ad_buckets()[i].ids@[k1]);
                let id1 = prev.ad_buckets()[i].ids@[k1]@;
                assert(prev.has_donation(id1));
                assert(self.ad_buckets()[i].ids@[k2] == d.donate_info_id);
            } else {
                assert(self.ad_buckets()[i].ids@[k1] == prev.ad_buckets()[i].ids@[k1]);
                assert(self.ad_buckets()[i].ids@[k2] == prev.ad_buckets()[i].ids@[k2]);
            }
        }

        // Aggregates.
        assert forall|i: int| 0 <= i < self.questions().len() implies (
        #[trigger] self.questions()[i]).total_answer as int == self.answer_count(
            self.questions()[i].question_id@,
        ) by {
            let iqid = self.questions()[i].question_id@;
            assert(prev.questions()[i].total_answer as int == prev.answer_count(iqid));
            assert(answer_of_question(iqid)(a2) == answer_of_question(iqid)(prev.answers()[ai]));
            lemma_count_update(prev.answers(), answer_of_question(iqid), ai, a2);
        }
        assert forall|i: int| 0 <= i < self.answers().len() implies (
        #[trigger] self.answers()[i]).total_amount_donate as int == self.donation_sum(
            self.answers()[i].answer_id@,
        ) by {
            let iaid = self.answers()[i].answer_id@;
            assert(iaid == prev.answers()[i].answer_id@);
            assert(prev.answers()[i].total_amount_donate as int == prev.donation_sum(iaid));
            lemma_sum_push(prev.donations(), donation_of_answer(iaid), donation_amount(), d);
            if i != ai {
                assert(answer_key()(prev.answers()[i]) != answer_key()(prev.answers()[ai]));
                assert(iaid != aid);
            }
        }
    }

    /// Law: a stored question's `total_answer` counter always equals the
    /// number of stored answers that refer to it.  Because `create_answer`
    /// is the only operation that adds an answer — exactly one per
    /// successful call — the counter read back by `get_question_detail`
    /// equals the number of successful `create_answer` calls for that
    /// question so far.
    pub proof fn lemma_answer_counter_consistent(self, qid: Seq<char>)
        requires
            self.wf(),
            self.has_question(qid),
        ensures
            self.question_at(qid).total_answer as int == self.answer_count(qid),
    {
        lemma_at_key_found(self.questions(), question_key(), qid);
        let i = key_index(self.questions(), question_key(), qid);
        assert(self.questions()[i].total_answer as int == self.answer_count(
            self.questions()[i].question_id@,
        ));
    }

    /// Law: a stored answer's `total_amount_donate` always equals the sum of
    /// the amounts of the stored donations that refer to it.  Because
    /// `donate` is the only operation that adds a donation — exactly one per
    /// successful call — the total read back by `get_answer_detail` equals
    /// the sum of all amounts donated to that answer so far.
    pub proof fn lemma_donation_total_consistent(self, aid: Seq<char>)
        requires
            self.wf(),
            self.has_answer(aid),
        ensures
            self.answer_at(aid).total_amount_donate as int == self.donation_sum(aid),
    {
        lemma_at_key_found(self.answers(), answer_key(), aid);
        let i = key_index(self.answers(), answer_key(), aid);
        assert(self.answers()[i].total_amount_donate as int == self.donation_sum(
            self.answers()[i].answer_id@,
        ));
    }

    /// Law: question reads are idempotent.  `get_question_detail` returns
    /// exactly `spec_question_detail`, a function of the store and the id
    /// alone, so two calls with no mutation in between return identical
    /// results.
    pub proof fn lemma_question_read_idempotent(
        self,
        id: Seq<char>,
        r1: Option<Question>,
        r2: Option<Question>,
    )
        requires
            r1 == self.spec_question_detail(id),
            r2 == self.spec_question_detail(id),
        ensures
            r1 == r2,
    {
    }

    /// Law: answer reads are idempotent, as `lemma_question_read_idempotent`.
    pub proof fn lemma_answer_read_idempotent(
        self,
        id: Seq<char>,
        r1: Option<Answer>,
        r2: Option<Answer>,
    )
        requires
            r1 == self.spec_answer_detail(id),
            r2 == self.spec_answer_detail(id),
        ensures
            r1 == r2,
    {
    }

    /// What `get_question_detail` returns: the stored question named by `id`,
    /// or nothing.
    pub open spec fn spec_question_detail(self, id: Seq<char>) -> Option<Question> {
        if self.has_question(id) {
            Some(self.question_at(id))
        } else {
            None
        }
    }

    /// What `get_answer_detail` returns: the stored answer named by `id`, or
    /// nothing.
    pub open spec fn spec_answer_detail(self, id: Seq<char>) -> Option<Answer> {
        if self.has_answer(id) {
            Some(self.answer_at(id))
        } else {
            None
        }
    }

    /// Pure lookup of a question.  A missing id is not an error: the caller
    /// receives `None`.  The result is a function of the store and the id
    /// alone, so two calls with no mutation in between return the same thing.
    pub fn get_question_detail(&self, question_id: String) -> (r: Option<Question>)
        requires
            self.wf(),
        ensures
            r == self.spec_question_detail(question_id@),
    {
        match self.find_question_index(&question_id) {
            Some(i) => {
                proof {
                    lemma_at_key_of_index(self.questions(), question_key(), i as int);
                }
                Some(self.question_table[i].clone())
            },
            None => None,
        }
    }

    /// Pure lookup of an answer; same contract as `get_question_detail`.
    pub fn get_answer_detail(&self, answer_id: String) -> (r: Option<Answer>)
        requires
            self.wf(),
        ensures
            r == self.spec_answer_detail(answer_id@),
    {
        match self.find_answer_index(&answer_id) {
            Some(i) => {
                proof {
                    lemma_at_key_of_index(self.answers(), answer_key(), i as int);
                }
                Some(self.answer_table[i].clone())
            },
            None => None,
        }
    }

    /// The answers of question `question_id`, in the order they were
    /// created.
    ///
    /// Unlike the detail lookups, a missing question is an error here, not an
    /// empty result: the absence of the index bucket itself would be
    /// anomalous.  On success the result carries exactly the stored answers
    /// that refer to `question_id` — no duplicates, no omissions.
    pub fn get_list_answer_for_question(&self, question_id: String) -> (r: Result<
        Vec<Answer>,
        StoreError,
    >)
        requires
            self.wf(),
        ensures
            !self.has_question(question_id@) ==> r == Err::<Vec<Answer>, StoreError>(
                StoreError::QuestionNotFound,
            ),
            self.has_question(question_id@) ==> match r {
                Ok(v) => {
                    &&& v@.len() == self.answer_ids_of(question_id@).len()
                    &&& forall|k: int|
                        0 <= k < v@.len() ==> #[trigger] v@[k] == self.answer_at(
                            self.answer_ids_of(question_id@)[k]@,
                        ) && v@[k].question_id@ == question_id@
                    &&& forall|x: Answer| #[trigger]
                        v@.contains(x) <==> self.answers().contains(x) && x.question_id@
                            == question_id@
                    &&& forall|k1: int, k2: int|
                        0 <= k1 < k2 < v@.len() ==> (#[trigger] v@[k1]).answer_id@
                            != (#[trigger] v@[k2]).answer_id@
                },
                Err(_) => false,
            },
    {
        let bi = match self.find_qa_bucket_index(&question_id) {
            Some(i) => i,
            None => {
                proof {
                    if self.has_question(question_id@) {
                        lemma_at_key_found(self.questions(), question_key(), question_id@);
                        let i = key_index(self.questions(), question_key(), question_id@);
                        assert(self.has_answer_bucket(self.questions()[i].question_id@));
                    }
                }
                return Err(StoreError::QuestionNotFound);
            },
        };
        proof {
            assert(self.has_question(self.qa_buckets()[bi as int].key@));
            lemma_at_key_of_index(self.qa_buckets(), bucket_key(), bi as int);
        }
        let ghost qid = question_id@;
        let ghost ids = self.qa_buckets()[bi as int].ids@;
        let mut v: Vec<Answer> = Vec::new();
        let mut k: usize = 0;
        while k < self.question_answer_index[bi].ids.len()
            invariant
                self.wf(),
                bi < self.qa_buckets().len(),
                self.qa_buckets()[bi as int].key@ == qid,
                ids == self.qa_buckets()[bi as int].ids@,
                k <= ids.len(),
                v@.len() == k,
                forall|m: int|
                    0 <= m < k ==> #[trigger] v@[m] == self.answer_at(ids[m]@),
            decreases ids.len() - k,
        {
            proof {
                assert(self.has_answer(self.qa_buckets()[bi as int].ids@[k as int]@));
            }
            match self.find_answer_index(&self.question_answer_index[bi].ids[k]) {
                Some(ai) => {
                    proof {
                        lemma_at_key_of_index(self.answers(), answer_key(), ai as int);
                    }
                    v.push(self.answer_table[ai].clone());
                },
                None => {
                    // Unreachable: every id listed in a bucket has a row.
                },
            }
            k += 1;
        }
        proof {
            self.lemma_answers_listed_exactly(qid, bi as int, v@);
        }
        Ok(v)
    }

    /// A vector holding, for each id of question `qid`'s bucket, the answer
    /// that id names, lists exactly the stored answers of `qid`.
    proof fn lemma_answers_listed_exactly(self, qid: Seq<char>, bi: int, v: Seq<Answer>)
        requires
            self.wf(),
            0 <= bi < self.qa_buckets().len(),
            self.qa_buckets()[bi].key@ == qid,
            v.len() == self.qa_buckets()[bi].ids@.len(),
            forall|m: int|
                0 <= m < v.len() ==> #[trigger] v[m] == self.answer_at(
                    self.qa_buckets()[bi].ids@[m]@,
                ),
        ensures
            self.answer_ids_of(qid) == self.qa_buckets()[bi].ids@,
            forall|k: int|
                0 <= k < v.len() ==> #[trigger] v[k] == self.answer_at(
                    self.answer_ids_of(qid)[k]@,
                ) && v[k].question_id@ == qid,
            forall|x: Answer| #[trigger]
                v.contains(x) <==> self.answers().contains(x) && x.question_id@ == qid,
            forall|k1: int, k2: int|
                0 <= k1 < k2 < v.len() ==> (#[trigger] v[k1]).answer_id@
                    != (#[trigger] v[k2]).answer_id@,
    {
        lemma_at_key_of_index(self.qa_buckets(), bucket_key(), bi);
        let ids = self.qa_buckets()[bi].ids@;
        assert forall|k: int| 0 <= k < v.len() implies #[trigger] v[k] == self.answer_at(ids[k]@)
            && v[k].question_id@ == qid && v[k].answer_id@ == ids[k]@ by {
            assert(self.has_answer(ids[k]@) && self.answer_at(ids[k]@).question_id@
                == self.qa_buckets()[bi].key@);
            lemma_at_key_found(self.answers(), answer_key(), ids[k]@);
        }
        assert forall|x: Answer| #[trigger] v.contains(x) implies self.answers().contains(x)
            && x.question_id@ == qid by {
            let k = choose|k: int| 0 <= k < v.len() && v[k] == x;
            assert(self.has_answer(ids[k]@));
            lemma_at_key_found(self.answers(), answer_key(), ids[k]@);
            let j = key_index(self.answers(), answer_key(), ids[k]@);
            assert(self.answers()[j] == x);
        }
        assert forall|x: Answer|
            self.answers().contains(x) && x.question_id@ == qid implies #[trigger] v.contains(
                x,
            ) by {
            let j = choose|j: int| 0 <= j < self.answers().len() && self.answers()[j] == x;
            assert(has_key(self.answer_ids_of(x.question_id@), string_key(), x.answer_id@));
            let m = key_index(self.answer_ids_of(qid), string_key(), x.answer_id@);
            assert(string_key()(self.answer_ids_of(qid)[m]) == x.answer_id@);
            assert(v[m] == self.answer_at(ids[m]@));
            lemma_at_key_of_index(self.answers(), answer_key(), j);
            assert(v[m] == x);
        }
        assert forall|k1: int, k2: int|
            0 <= k1 < k2 < v.len() implies (#[trigger] v[k1]).answer_id@
            != (#[trigger] v[k2]).answer_id@ by {
            assert(ids[k1]@ != ids[k2]@);
        }
    }

    /// The donations recorded for answer `answer_id`, in the order they were
    /// made; the exact mirror of `get_list_answer_for_question`.
    pub fn get_donate_history(&self, answer_id: String) -> (r: Result<Vec<DonateInfo>, StoreError>)
        requires
            self.wf(),
        ensures
            !self.has_answer(answer_id@) ==> r == Err::<Vec<DonateInfo>, StoreError>(
                StoreError::AnswerNotFound,
            ),
            self.has_answer(answer_id@) ==> match r {
                Ok(v) => {
                    &&& v@.len() == self.donation_ids_of(answer_id@).len()
                    &&& forall|k: int|
                        0 <= k < v@.len() ==> #[trigger] v@[k] == self.donation_at(
                            self.donation_ids_of(answer_id@)[k]@,
                        ) && v@[k].answer_id@ == answer_id@
                    &&& forall|x: DonateInfo| #[trigger]
                        v@.contains(x) <==> self.donations().contains(x) && x.answer_id@
                            == answer_id@
                    &&& forall|k1: int, k2: int|
                        0 <= k1 < k2 < v@.len() ==> (#[trigger] v@[k1]).donate_info_id@
                            != (#[trigger] v@[k2]).donate_info_id@
                },
                Err(_) => false,
            },
    {
        let bi = match self.find_ad_bucket_index(&answer_id) {
            Some(i) => i,
            None => {
                proof {
                    if self.has_answer(answer_id@) {
                        lemma_at_key_found(self.answers(), answer_key(), answer_id@);
                        let i = key_index(self.answers(), answer_key(), answer_id@);
                        assert(self.has_donation_bucket(self.answers()[i].answer_id@));
                    }
                }
                return Err(StoreError::AnswerNotFound);
            },
        };
        proof {
            assert(self.has_answer(self.ad_buckets()[bi as int].key@));
            lemma_at_key_of_index(self.ad_buckets(), bucket_key(), bi as int);
        }
        let ghost aid = answer_id@;
        let ghost ids = self.ad_buckets()[bi as int].ids@;
        let mut v: Vec<DonateInfo> = Vec::new();
        let mut k: usize = 0;
        while k < self.answer_donation_index[bi].ids.len()
            invariant
                self.wf(),
                bi < self.ad_buckets().len(),
                self.ad_buckets()[bi as int].key@ == aid,
                ids == self.ad_buckets()[bi as int].ids@,
                k <= ids.len(),
                v@.len() == k,
                forall|m: int|
                    0 <= m < k ==> #[trigger] v@[m] == self.donation_at(ids[m]@),
            decreases ids.len() - k,
        {
            proof {
                assert(self.has_donation(self.ad_buckets()[bi as int].ids@[k as int]@));
            }
            match self.find_donation_index(&self.answer_donation_index[bi].ids[k]) {
                Some(di) => {
                    proof {
                        lemma_at_key_of_index(self.donations(), donation_key(), di as int);
                    }
                    v.push(self.donation_table[di].clone());
                },
                None => {
                    // Unreachable: every id listed in a bucket has a row.
                },
            }
            k += 1;
        }
        proof {
            self.lemma_donations_listed_exactly(aid, bi as int, v@);
        }
        Ok(v)
    }

    /// A vector holding, for each id of answer `aid`'s bucket, the donation
    /// that id names, lists exactly the stored donations to `aid`.
    proof fn lemma_donations_listed_exactly(self, aid: Seq<char>, bi: int, v: Seq<DonateInfo>)
        requires
            self.wf(),
            0 <= bi < self.ad_buckets().len(),
            self.ad_buckets()[bi].key@ == aid,
            v.len() == self.ad_buckets()[bi].ids@.len(),
            forall|m: int|
                0 <= m < v.len() ==> #[trigger] v[m] == self.donation_at(
                    self.ad_buckets()[bi].ids@[m]@,
                ),
        ensures
            self.donation_ids_of(aid) == self.ad_buckets()[bi].ids@,
            forall|k: int|
                0 <= k < v.len() ==> #[trigger] v[k] == self.donation_at(
                    self.donation_ids_of(aid)[k]@,
                ) && v[k].answer_id@ == aid,
            forall|x: DonateInfo| #[trigger]
                v.contains(x) <==> self.donations().contains(x) && x.answer_id@ == aid,
            forall|k1: int, k2: int|
                0 <= k1 < k2 < v.len() ==> (#[trigger] v[k1]).donate_info_id@
                    != (#[trigger] v[k2]).donate_info_id@,
    {
        lemma_at_key_of_index(self.ad_buckets(), bucket_key(), bi);
        let ids = self.ad_buckets()[bi].ids@;
        assert forall|k: int| 0 <= k < v.len() implies #[trigger] v[k] == self.donation_at(ids[k]@)
            && v[k].answer_id@ == aid && v[k].donate_info_id@ == ids[k]@ by {
            assert(self.has_donation(ids[k]@) && self.donation_at(ids[k]@).answer_id@
                == self.ad_buckets()[bi].key@);
            lemma_at_key_found(self.donations(), donation_key(), ids[k]@);
        }
        assert forall|x: DonateInfo| #[trigger] v.contains(x) implies self.donations().contains(x)
            && x.answer_id@ == aid by {
            let k = choose|k: int| 0 <= k < v.len() && v[k] == x;
            assert(self.has_donation(ids[k]@));
            lemma_at_key_found(self.donations(), donation_key(), ids[k]@);
            let j = key_index(self.donations(), donation_key(), ids[k]@);
            assert(self.donations()[j] == x);
        }
        assert forall|x: DonateInfo|
            self.donations().contains(x) && x.answer_id@ == aid implies #[trigger] v.contains(
                x,
            ) by {
            let j = choose|j: int| 0 <= j < self.donations().len() && self.donations()[j] == x;
            assert(has_key(self.donation_ids_of(x.answer_id@), string_key(), x.donate_info_id@));
            let m = key_index(self.donation_ids_of(aid), string_key(), x.donate_info_id@);
            assert(string_key()(self.donation_ids_of(aid)[m]) == x.donate_info_id@);
            assert(v[m] == self.donation_at(ids[m]@));
            lemma_at_key_of_index(self.donations(), donation_key(), j);
            assert(v[m] == x);
        }
        assert forall|k1: int, k2: int|
            0 <= k1 < k2 < v.len() implies (#[trigger] v[k1]).donate_info_id@
            != (#[trigger] v[k2]).donate_info_id@ by {
            assert(ids[k1]@ != ids[k2]@);
        }
    }

    /// All stored questions, in insertion order.
    pub fn get_list_question(&self) -> (r: Vec<Question>)
        ensures
            r@ == self.questions(),
    {
        let mut v: Vec<Question> = Vec::new();
        let mut i: usize = 0;
        while i < self.question_table.len()
            invariant
                i <= self.questions().len(),
                v@ == self.questions().subrange(0, i as int),
            decreases self.questions().len() - i,
        {
            v.push(self.question_table[i].clone());
            proof {
                assert(v@ =~= self.questions().subrange(0, i + 1 as int));
            }
            i += 1;
        }
        proof {
            assert(v@ =~= self.questions());
        }
        v
    }
}

} // verus!
