use q_and_a_near::day_truncated_millis;
use q_and_a_near::AnswerCreateDto;
use q_and_a_near::DonationCreateDto;
use q_and_a_near::QAndANear;
use q_and_a_near::QuestionCreateDto;
use q_and_a_near::StoreError;

fn question(title: &str, content: &str) -> QuestionCreateDto {
    QuestionCreateDto {
        title: title.to_string(),
        content: content.to_string(),
    }
}

fn answer(question_id: &str, content: &str) -> AnswerCreateDto {
    AnswerCreateDto {
        question_id: question_id.to_string(),
        content: content.to_string(),
    }
}

fn donation(answer_id: &str, amount: u64) -> DonationCreateDto {
    DonationCreateDto {
        answer_id: answer_id.to_string(),
        amount,
    }
}

fn caller() -> String {
    "bob_near".to_string()
}

#[test]
fn create_answer_unknown_question_fails() {
    let mut contract = QAndANear::default();
    let ret = contract.create_answer(answer("missing", "A"), "a1".to_string(), caller(), 0);
    assert_eq!(ret, Err(StoreError::QuestionNotFound));
    assert_eq!(contract.get_list_question().len(), 0);
}

#[test]
fn donate_unknown_answer_fails() {
    let mut contract = QAndANear::default();
    let ret = contract.donate(donation("missing", 5), "d1".to_string(), caller(), 0);
    assert_eq!(ret, Err(StoreError::AnswerNotFound));
}

#[test]
fn list_answers_unknown_question_fails() {
    let contract = QAndANear::default();
    let ret = contract.get_list_answer_for_question("missing".to_string());
    assert_eq!(ret, Err(StoreError::QuestionNotFound));
}

#[test]
fn donate_history_unknown_answer_fails() {
    let contract = QAndANear::default();
    let ret = contract.get_donate_history("missing".to_string());
    assert_eq!(ret, Err(StoreError::AnswerNotFound));
}

#[test]
fn detail_of_missing_ids_is_absent() {
    let contract = QAndANear::default();
    assert_eq!(contract.get_question_detail("missing".to_string()), None);
    assert_eq!(contract.get_answer_detail("missing".to_string()), None);
}

#[test]
fn duplicate_question_id_fails_and_changes_nothing() {
    let mut contract = QAndANear::default();
    contract
        .create_question(question("T", "C"), "q1".to_string(), caller(), 0)
        .unwrap();
    let ret = contract.create_question(question("T2", "C2"), "q1".to_string(), caller(), 0);
    assert_eq!(ret, Err(StoreError::DuplicateId));
    let listed = contract.get_list_question();
    assert_eq!(listed.len(), 1);
    assert_eq!(listed[0].title, "T".to_string());
}

#[test]
fn duplicate_answer_id_fails_and_changes_nothing() {
    let mut contract = QAndANear::default();
    contract
        .create_question(question("T", "C"), "q1".to_string(), caller(), 0)
        .unwrap();
    contract
        .create_answer(answer("q1", "A"), "a1".to_string(), caller(), 0)
        .unwrap();
    let ret = contract.create_answer(answer("q1", "B"), "a1".to_string(), caller(), 0);
    assert_eq!(ret, Err(StoreError::DuplicateId));
    // The failed call left no partial write behind.
    let q = contract.get_question_detail("q1".to_string()).unwrap();
    assert_eq!(q.total_answer, 1);
    let listed = contract
        .get_list_answer_for_question("q1".to_string())
        .unwrap();
    assert_eq!(listed.len(), 1);
    assert_eq!(listed[0].content, "A".to_string());
}

#[test]
fn duplicate_donation_id_fails_and_changes_nothing() {
    let mut contract = QAndANear::default();
    contract
        .create_question(question("T", "C"), "q1".to_string(), caller(), 0)
        .unwrap();
    contract
        .create_answer(answer("q1", "A"), "a1".to_string(), caller(), 0)
        .unwrap();
    contract
        .donate(donation("a1", 10), "d1".to_string(), caller(), 0)
        .unwrap();
    let ret = contract.donate(donation("a1", 4), "d1".to_string(), caller(), 0);
    assert_eq!(ret, Err(StoreError::DuplicateId));
    // The failed call left no partial write behind.
    let a = contract.get_answer_detail("a1".to_string()).unwrap();
    assert_eq!(a.total_amount_donate, 10);
    assert_eq!(contract.get_donate_history("a1".to_string()).unwrap().len(), 1);
}

#[test]
fn reads_are_idempotent() {
    let mut contract = QAndANear::default();
    contract
        .create_question(question("T", "C"), "q1".to_string(), caller(), 0)
        .unwrap();
    contract
        .create_answer(answer("q1", "A"), "a1".to_string(), caller(), 0)
        .unwrap();
    let q_first = contract.get_question_detail("q1".to_string());
    let q_second = contract.get_question_detail("q1".to_string());
    assert_eq!(q_first, q_second);
    let a_first = contract.get_answer_detail("a1".to_string());
    let a_second = contract.get_answer_detail("a1".to_string());
    assert_eq!(a_first, a_second);
}

#[test]
fn answer_counter_tracks_successful_creates() {
    let mut contract = QAndANear::default();
    contract
        .create_question(question("T", "C"), "q1".to_string(), caller(), 0)
        .unwrap();
    contract
        .create_question(question("T2", "C2"), "q2".to_string(), caller(), 0)
        .unwrap();
    for (i, id) in ["a1", "a2", "a3"].iter().enumerate() {
        contract
            .create_answer(answer("q1", "A"), id.to_string(), caller(), 0)
            .unwrap();
        let q = contract.get_question_detail("q1".to_string()).unwrap();
        assert_eq!(q.total_answer, i as i32 + 1);
    }
    let other = contract.get_question_detail("q2".to_string()).unwrap();
    assert_eq!(other.total_answer, 0);
}

#[test]
fn donated_total_tracks_successful_donations() {
    let mut contract = QAndANear::default();
    contract
        .create_question(question("T", "C"), "q1".to_string(), caller(), 0)
        .unwrap();
    contract
        .create_answer(answer("q1", "A"), "a1".to_string(), caller(), 0)
        .unwrap();
    contract
        .create_answer(answer("q1", "B"), "a2".to_string(), caller(), 0)
        .unwrap();
    contract
        .donate(donation("a1", 10), "d1".to_string(), caller(), 0)
        .unwrap();
    contract
        .donate(donation("a1", 4), "d2".to_string(), caller(), 0)
        .unwrap();
    contract
        .donate(donation("a2", 1), "d3".to_string(), caller(), 0)
        .unwrap();
    assert_eq!(
        contract
            .get_answer_detail("a1".to_string())
            .unwrap()
            .total_amount_donate,
        14
    );
    assert_eq!(
        contract
            .get_answer_detail("a2".to_string())
            .unwrap()
            .total_amount_donate,
        1
    );
}

#[test]
fn zero_amount_donation_is_accepted() {
    // The store does not validate amounts; zero passes through and adds
    // nothing to the total.
    let mut contract = QAndANear::default();
    contract
        .create_question(question("T", "C"), "q1".to_string(), caller(), 0)
        .unwrap();
    contract
        .create_answer(answer("q1", "A"), "a1".to_string(), caller(), 0)
        .unwrap();
    let d = contract
        .donate(donation("a1", 0), "d1".to_string(), caller(), 0)
        .unwrap();
    assert_eq!(d.amount, 0);
    let a = contract.get_answer_detail("a1".to_string()).unwrap();
    assert_eq!(a.total_amount_donate, 0);
    assert_eq!(contract.get_donate_history("a1".to_string()).unwrap().len(), 1);
}

#[test]
fn listed_answers_are_exactly_the_created_ones() {
    let mut contract = QAndANear::default();
    contract
        .create_question(question("T", "C"), "q1".to_string(), caller(), 0)
        .unwrap();
    contract
        .create_question(question("T2", "C2"), "q2".to_string(), caller(), 0)
        .unwrap();
    contract
        .create_answer(answer("q1", "A"), "a1".to_string(), caller(), 0)
        .unwrap();
    contract
        .create_answer(answer("q2", "B"), "a2".to_string(), caller(), 0)
        .unwrap();
    contract
        .create_answer(answer("q1", "C"), "a3".to_string(), caller(), 0)
        .unwrap();
    let of_q1 = contract
        .get_list_answer_for_question("q1".to_string())
        .unwrap();
    let ids: Vec<String> = of_q1.iter().map(|a| a.answer_id.clone()).collect();
    assert_eq!(ids, vec!["a1".to_string(), "a3".to_string()]);
    let of_q2 = contract
        .get_list_answer_for_question("q2".to_string())
        .unwrap();
    assert_eq!(of_q2.len(), 1);
    assert_eq!(of_q2[0].answer_id, "a2".to_string());
}

#[test]
fn donate_history_is_exactly_the_made_donations() {
    let mut contract = QAndANear::default();
    contract
        .create_question(question("T", "C"), "q1".to_string(), caller(), 0)
        .unwrap();
    contract
        .create_answer(answer("q1", "A"), "a1".to_string(), caller(), 0)
        .unwrap();
    contract
        .create_answer(answer("q1", "B"), "a2".to_string(), caller(), 0)
        .unwrap();
    contract
        .donate(donation("a1", 10), "d1".to_string(), caller(), 0)
        .unwrap();
    contract
        .donate(donation("a2", 7), "d2".to_string(), caller(), 0)
        .unwrap();
    contract
        .donate(donation("a1", 4), "d3".to_string(), caller(), 0)
        .unwrap();
    let of_a1 = contract.get_donate_history("a1".to_string()).unwrap();
    let ids: Vec<String> = of_a1.iter().map(|d| d.donate_info_id.clone()).collect();
    assert_eq!(ids, vec!["d1".to_string(), "d3".to_string()]);
    let amounts: Vec<u64> = of_a1.iter().map(|d| d.amount).collect();
    assert_eq!(amounts, vec![10, 4]);
    let of_a2 = contract.get_donate_history("a2".to_string()).unwrap();
    assert_eq!(of_a2.len(), 1);
    assert_eq!(of_a2[0].donate_info_id, "d2".to_string());
}

#[test]
fn questions_are_listed_in_creation_order() {
    let mut contract = QAndANear::default();
    contract
        .create_question(question("first", "1"), "q1".to_string(), caller(), 0)
        .unwrap();
    contract
        .create_question(question("second", "2"), "q2".to_string(), caller(), 0)
        .unwrap();
    let listed = contract.get_list_question();
    assert_eq!(listed[0].question_id, "q1".to_string());
    assert_eq!(listed[1].question_id, "q2".to_string());
}

#[test]
fn full_scenario() {
    let mut contract = QAndANear::default();
    let q = contract
        .create_question(question("T", "C"), "q1".to_string(), caller(), 0)
        .unwrap();
    assert_eq!(q.total_answer, 0);
    assert_eq!(q.total_vote, 0);
    let a = contract
        .create_answer(
            answer(&q.question_id, "A"),
            "a1".to_string(),
            caller(),
            0,
        )
        .unwrap();
    assert_eq!(a.total_amount_donate, 0);
    let refetched = contract
        .get_question_detail(q.question_id.clone())
        .unwrap();
    assert_eq!(refetched.total_answer, 1);
    contract
        .donate(donation(&a.answer_id, 10), "d1".to_string(), caller(), 0)
        .unwrap();
    contract
        .donate(donation(&a.answer_id, 4), "d2".to_string(), caller(), 0)
        .unwrap();
    assert_eq!(
        contract
            .get_answer_detail(a.answer_id.clone())
            .unwrap()
            .total_amount_donate,
        14
    );
    assert_eq!(
        contract
            .get_donate_history(a.answer_id.clone())
            .unwrap()
            .len(),
        2
    );
    contract
        .create_question(question("T2", "C2"), "q2".to_string(), caller(), 0)
        .unwrap();
    assert_eq!(contract.get_list_question().len(), 2);
    assert_eq!(
        contract.get_list_answer_for_question("nonexistent".to_string()),
        Err(StoreError::QuestionNotFound)
    );
}

#[test]
fn timestamps_truncate_to_day_start_in_millis() {
    assert_eq!(day_truncated_millis(0), 0);
    // One nanosecond short of a full day still belongs to day zero.
    assert_eq!(day_truncated_millis(86_399_999_999_999), 0);
    assert_eq!(day_truncated_millis(86_400_000_000_000), 86_400_000);
    assert_eq!(day_truncated_millis(2 * 86_400_000_000_000 + 123), 172_800_000);
    assert_eq!(day_truncated_millis(u64::MAX), 213_503 * 86_400_000);
}
