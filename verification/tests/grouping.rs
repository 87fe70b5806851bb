use peer_review_by_ai::aggregate::aggregate_reviews;
use peer_review_by_ai::date::Date;
use peer_review_by_ai::prompt::generate_review_prompt;
use peer_review_by_ai::quarter::Quarter;
use peer_review_by_ai::record::Review;

fn q1_2024() -> Quarter {
    Quarter {
        year: 2024,
        quarter: 1,
        display: "2024 Q1".to_string(),
    }
}

fn rec(year: i32, month: u8, day: u8, coworker: &str, content: &str) -> Review {
    Review {
        date: Date { year, month, day },
        coworker: coworker.to_string(),
        content: content.to_string(),
    }
}

#[test]
fn aggregate_groups_by_author_and_sorts_by_date() {
    let records = vec![
        rec(2024, 2, 20, "Alex", "second"),
        rec(2024, 1, 5, "Bob", "bob log"),
        rec(2024, 1, 10, "Alex", "first"),
        rec(2024, 4, 1, "Alex", "next quarter"),
    ];
    let groups = aggregate_reviews(records, &q1_2024());
    assert_eq!(groups.len(), 2);
    assert_eq!(groups[0].coworker, "Alex");
    assert_eq!(groups[0].reviews.len(), 2);
    assert_eq!(
        groups[0].reviews[0].date,
        Date {
            year: 2024,
            month: 1,
            day: 10
        }
    );
    assert_eq!(
        groups[0].reviews[1].date,
        Date {
            year: 2024,
            month: 2,
            day: 20
        }
    );
    assert_eq!(groups[1].coworker, "Bob");
    assert_eq!(groups[1].reviews.len(), 1);
    assert_eq!(
        groups[1].reviews[0].date,
        Date {
            year: 2024,
            month: 1,
            day: 5
        }
    );
}

#[test]
fn aggregate_excludes_other_quarters_entirely() {
    let records = vec![
        rec(2024, 4, 1, "Alex", "q2"),
        rec(2023, 1, 1, "Alex", "old year"),
    ];
    let groups = aggregate_reviews(records, &q1_2024());
    assert!(groups.is_empty());
}

#[test]
fn aggregate_of_empty_input_is_empty() {
    let groups = aggregate_reviews(Vec::new(), &q1_2024());
    assert!(groups.is_empty());
}

#[test]
fn aggregate_keeps_input_order_for_equal_dates() {
    let records = vec![
        rec(2024, 1, 10, "Alex", "earlier in input"),
        rec(2024, 1, 10, "Alex", "later in input"),
    ];
    let groups = aggregate_reviews(records, &q1_2024());
    assert_eq!(groups.len(), 1);
    assert_eq!(groups[0].reviews[0].content, "earlier in input");
    assert_eq!(groups[0].reviews[1].content, "later in input");
}

#[test]
fn aggregate_twice_yields_identical_groups() {
    let make = || {
        vec![
            rec(2024, 2, 20, "Alex", "second"),
            rec(2024, 1, 5, "Bob", "bob log"),
            rec(2024, 1, 10, "Alex", "first"),
        ]
    };
    let first = aggregate_reviews(make(), &q1_2024());
    let second = aggregate_reviews(make(), &q1_2024());
    assert_eq!(first, second);
}

#[test]
fn prompt_lays_out_records_in_group_order() {
    let reviews = vec![
        rec(2024, 1, 10, "Alex", "Did things."),
        rec(2024, 2, 20, "Alex", "Did more."),
    ];
    let prompt = generate_review_prompt("Alex", &reviews);
    let expected = format!(
        "{}{}{}{}{}{}{}{}",
        "Based on the following work logs for ",
        "Alex",
        ", please provide a comprehensive quarterly review. For each category, provide a rating and detailed explanation with specific examples from the work logs:\n\n1. Working Frequency\nRate how closely you worked with ",
        "Alex",
        " this quarter:\n- Never\n- Almost never\n- Sometimes\n- Frequently\n- Daily\n\n2. Core Competencies (Rate each as: Unsatisfactory/Improvement needed/Meets expectations/Exceeds expectations/Truly exceptional/Not Applicable)\n\nWork Quality:\n- Accuracy and thoroughness\n- Productivity and competence\n- Detailed explanation required\n\nProblem Solving:\n- Reasoning and analysis capabilities\n- Solution identification\n- Willingness to tackle problems\n- Acceptance of new responsibilities\n\nWork Independence and Autonomy:\n- Quality of work with minimal guidance\n- Self-sufficiency in delivery\n- Independence from management oversight\n\nAttitude:\n- Respect for others\n- Initiative taking\n- Handling mistakes and criticism\n- Active listening\n\nLeadership:\n- Emerging leadership skills\n- Project leadership\n- Proactiveness\n- Personal ownership of results\n\nTeamwork:\n- Collaboration within and across teams\n- Relationship maintenance with colleagues\n\nCommunication:\n- Clarity and timeliness\n- Transparency in work progress\n- Information sharing with team members\n\nEngagement:\n- Participation in discussions\n- Solution proposal\n- Constructive disagreement when needed\n\nCompany Goals:\n- Contribution to annual company objectives\n- Alignment with organizational aims\n\nSecurity:\n- Adherence to Information Security Policy\n- Security practice implementation\n- Computer locking when away from desk\n\nProfessional Etiquette:\n- Meeting punctuality\n- Compliance with company policies\n- Professional conduct\n\n3. Managerial Assessment (if applicable)\nFor each item, rate as: Unsatisfactory/Improvement needed/Meets expectations/Exceeds expectations/Truly exceptional/Not Applicable\n\nMentoring:\n- Support and guidance for junior team members\n\nManagement Skills:\n- Career growth promotion\n- Challenge assignment\n- Mentoring of other leads\n- Effective delegation\n\nTeam Culture:\n- Fostering positive environment\n- Supporting collaboration\n\nIndustry Visibility:\n- Conference participation\n- Public speaking\n- Blog post writing\n- Meetup hosting\n\nVision Communication:\n- Company vision understanding and explanation\n- Strategic direction setting\n- Goal alignment\n- Operating Principles promotion\n\n4. Strengths and Continuity\nProvide specific examples of:\n- Notable achievements this quarter\n- Successful projects\n- Positive behaviors to continue\n- Areas of excellence\n\n5. Areas for Improvement\nSpecify which areas need development (select and explain):\nA. Communication\nB. Work quality\nC. Teamwork\nD. Proactiveness\nE. Accountability\nF. Attention to detail\nG. Other\n\n6. Additional Comments\nProvide any other relevant feedback or suggestions for ",
        "Alex",
        "'s development.\n\nWork logs for review:\n\n",
        "Date: 2024-01-10\nContent:\nDid things.\n---\nDate: 2024-02-20\nContent:\nDid more.\n---\n",
    );
    assert_eq!(prompt, expected);
}

#[test]
fn prompt_for_no_records_ends_after_header() {
    let prompt = generate_review_prompt("Bea", &Vec::new());
    assert!(prompt.ends_with("Work logs for review:\n\n"));
    assert!(prompt.starts_with("Based on the following work logs for Bea, "));
}
