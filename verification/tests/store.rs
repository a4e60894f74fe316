use q_and_a_near::day_truncated_millis;
use q_and_a_near::AnswerCreateDto;
use q_and_a_near::DonationCreateDto;
use q_and_a_near::QAndANear;
use q_and_a_near::QuestionCreateDto;

fn now() -> i64 {
    day_truncated_millis(0)
}

#[test]
fn test_default() {
    let contract = QAndANear::default();
    assert_eq!(contract.get_list_question().len(), 0);
}

#[test]
fn should_create_question_success() {
    let mut contract = QAndANear::default();
    let question_dto = QuestionCreateDto {
        title: "Test tiele".to_string(),
        content: "Test content".to_string(),
    };
    let ret = contract.create_question(question_dto, "q1".to_string(), "bob_near".to_string(), now());
    assert_eq!(ret.is_ok(), true);
    let question_created = ret.unwrap();
    assert_eq!(question_created.title, "Test tiele".to_string());
    assert_eq!(question_created.content, "Test content".to_string());
    assert_eq!(question_created.question_id.is_empty(), false);
    assert_eq!(question_created.creator_id, "bob_near".to_string());
    assert_eq!(question_created.total_answer, 0);
    assert_eq!(question_created.total_vote, 0);
}

#[test]
fn should_create_answer_success() {
    let mut contract = QAndANear::default();
    let question_dto = QuestionCreateDto {
        title: "Test tiele".to_string(),
        content: "Test content".to_string(),
    };
    let question_created = contract
        .create_question(question_dto, "q1".to_string(), "bob_near".to_string(), now())
        .unwrap();
    let answer_dto = AnswerCreateDto {
        question_id: question_created.question_id.clone(),
        content: "Answer content".to_string(),
    };
    let ret = contract.create_answer(answer_dto, "a1".to_string(), "bob_near".to_string(), now());
    assert_eq!(ret.is_ok(), true);
    let answer_created = ret.unwrap();
    assert_eq!(answer_created.answer_id.is_empty(), false);
    assert_eq!(answer_created.content.is_empty(), false);
    assert_eq!(answer_created.creator_id, "bob_near".to_string());
    assert_eq!(
        answer_created.question_id.clone(),
        question_created.question_id.clone()
    );
    assert_eq!(answer_created.total_amount_donate, 0);
    assert_eq!(answer_created.total_vote, 0);

    let ret_op_question_after = contract.get_question_detail(question_created.question_id);
    assert_eq!(ret_op_question_after.is_some(), true);
    let question_after = ret_op_question_after.unwrap();
    assert_eq!(question_after.total_answer, 1);
}

#[test]
fn should_donation_success() {
    let mut contract = QAndANear::default();
    let question_dto = QuestionCreateDto {
        title: "Test tiele".to_string(),
        content: "Test content".to_string(),
    };
    let question_created = contract
        .create_question(question_dto, "q1".to_string(), "bob_near".to_string(), now())
        .unwrap();
    let answer_dto = AnswerCreateDto {
        question_id: question_created.question_id.clone(),
        content: "Answer content".to_string(),
    };
    let answer_created = contract
        .create_answer(answer_dto, "a1".to_string(), "bob_near".to_string(), now())
        .unwrap();

    let donation_dto = DonationCreateDto {
        answer_id: answer_created.answer_id.clone(),
        amount: 10,
    };
    let ret_op_donation_created =
        contract.donate(donation_dto, "d1".to_string(), "bob_near".to_string(), now());
    assert_eq!(ret_op_donation_created.is_ok(), true);
    let donation_created = ret_op_donation_created.unwrap();
    assert_eq!(donation_created.donate_info_id.is_empty(), false);
    assert_eq!(
        donation_created.answer_id.clone(),
        answer_created.answer_id.clone()
    );
    assert_eq!(
        donation_created.donate_creator_id.clone(),
        "bob_near".to_string()
    );
    assert_eq!(donation_created.amount, 10);

    let ret_op_answer_after_donate = contract.get_answer_detail(answer_created.answer_id.clone());
    assert_eq!(ret_op_answer_after_donate.is_some(), true);
    let answer_after_donate = ret_op_answer_after_donate.unwrap();
    assert_eq!(answer_after_donate.total_amount_donate, 10);

    let donation_dto_2 = DonationCreateDto {
        answer_id: answer_created.answer_id.clone(),
        amount: 4,
    };
    contract
        .donate(donation_dto_2, "d2".to_string(), "bob_near".to_string(), now())
        .unwrap();
    let ret_op_answer_after_donate = contract.get_answer_detail(answer_created.answer_id.clone());
    assert_eq!(ret_op_answer_after_donate.is_some(), true);
    let answer_after_donate = ret_op_answer_after_donate.unwrap();
    assert_eq!(answer_after_donate.total_amount_donate, 14);
}

#[test]
fn should_get_list_question_success() {
    let mut contract = QAndANear::default();
    let question_dto = QuestionCreateDto {
        title: "Test tiele".to_string(),
        content: "Test content".to_string(),
    };
    contract
        .create_question(question_dto, "q1".to_string(), "bob_near".to_string(), now())
        .unwrap();
    let question_dto_2 = QuestionCreateDto {
        title: "Test tiele 2".to_string(),
        content: "Test content 2".to_string(),
    };
    contract
        .create_question(question_dto_2, "q2".to_string(), "bob_near".to_string(), now())
        .unwrap();

    let list_questions = contract.get_list_question();
    assert_eq!(list_questions.len(), 2);
}

#[test]
fn should_get_list_answer_for_question_success() {
    let mut contract = QAndANear::default();
    let question_dto = QuestionCreateDto {
        title: "Test tiele".to_string(),
        content: "Test content".to_string(),
    };
    let question_created = contract
        .create_question(question_dto, "q1".to_string(), "bob_near".to_string(), now())
        .unwrap();
    let answer_dto = AnswerCreateDto {
        question_id: question_created.question_id.clone(),
        content: "Answer content".to_string(),
    };
    contract
        .create_answer(answer_dto, "a1".to_string(), "bob_near".to_string(), now())
        .unwrap();

    let answer_dto_2 = AnswerCreateDto {
        question_id: question_created.question_id.clone(),
        content: "Answer content_2".to_string(),
    };
    contract
        .create_answer(answer_dto_2, "a2".to_string(), "bob_near".to_string(), now())
        .unwrap();

    let list_answers = contract
        .get_list_answer_for_question(question_created.question_id.clone())
        .unwrap();
    assert_eq!(list_answers.len(), 2);
}

#[test]
fn should_get_donate_history_success() {
    let mut contract = QAndANear::default();
    let question_dto = QuestionCreateDto {
        title: "Test tiele".to_string(),
        content: "Test content".to_string(),
    };
    let question_created = contract
        .create_question(question_dto, "q1".to_string(), "bob_near".to_string(), now())
        .unwrap();
    let answer_dto_1 = AnswerCreateDto {
        question_id: question_created.question_id.clone(),
        content: "Answer content".to_string(),
    };
    let answer_created_1 = contract
        .create_answer(answer_dto_1, "a1".to_string(), "bob_near".to_string(), now())
        .unwrap();

    let answer_dto_2 = AnswerCreateDto {
        question_id: question_created.question_id.clone(),
        content: "Answer content_2".to_string(),
    };
    let answer_created_2 = contract
        .create_answer(answer_dto_2, "a2".to_string(), "bob_near".to_string(), now())
        .unwrap();

    let donation_dto_1 = DonationCreateDto {
        answer_id: answer_created_1.answer_id.clone(),
        amount: 10,
    };
    contract
        .donate(donation_dto_1, "d1".to_string(), "bob_near".to_string(), now())
        .unwrap();
    let donation_dto_1_1 = DonationCreateDto {
        answer_id: answer_created_1.answer_id.clone(),
        amount: 14,
    };
    contract
        .donate(donation_dto_1_1, "d2".to_string(), "bob_near".to_string(), now())
        .unwrap();

    let donation_dto_2 = DonationCreateDto {
        answer_id: answer_created_2.answer_id.clone(),
        amount: 1,
    };
    contract
        .donate(donation_dto_2, "d3".to_string(), "bob_near".to_string(), now())
        .unwrap();

    let list_donation_1 = contract
        .get_donate_history(answer_created_1.answer_id.clone())
        .unwrap();
    assert_eq!(list_donation_1.len(), 2);

    let list_donation_2 = contract
        .get_donate_history(answer_created_2.answer_id.clone())
        .unwrap();
    assert_eq!(list_donation_2.len(), 1);
}
