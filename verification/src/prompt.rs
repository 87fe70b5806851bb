use vstd::prelude::*;

use crate::date::date_chars;
use crate::date::date_string;
use crate::record::Review;
use crate::record::ReviewModel;
use crate::record::reviews_model;

verus! {

/// One record's entry in the prompt: its date line, its text, and a
/// separator.
pub open spec fn spec_review_entry(r: ReviewModel) -> Seq<char> {
    "Date: "@ + date_chars(r.date) + "\nContent:\n"@ + r.content + "\n---\n"@
}

/// The records' entries, in their given order.
pub open spec fn spec_reviews_text(rs: Seq<ReviewModel>) -> Seq<char>
    decreases rs.len(),
{
    if rs.len() == 0 {
        Seq::empty()
    } else {
        spec_reviews_text(rs.drop_last()) + spec_review_entry(rs.last())
    }
}

/// The whole generation request for one author: the review
/// questionnaire around the author's name, then the author's records.
pub open spec fn spec_prompt(coworker: Seq<char>, rs: Seq<ReviewModel>) -> Seq<char> {
    "Based on the following work logs for "@ + coworker + ", please provide a comprehensive quarterly review. For each category, provide a rating and detailed explanation with specific examples from the work logs:\n\n1. Working Frequency\nRate how closely you worked with "@ + coworker + " this quarter:\n- Never\n- Almost never\n- Sometimes\n- Frequently\n- Daily\n\n2. Core Competencies (Rate each as: Unsatisfactory/Improvement needed/Meets expectations/Exceeds expectations/Truly exceptional/Not Applicable)\n\nWork Quality:\n- Accuracy and thoroughness\n- Productivity and competence\n- Detailed explanation required\n\nProblem Solving:\n- Reasoning and analysis capabilities\n- Solution identification\n- Willingness to tackle problems\n- Acceptance of new responsibilities\n\nWork Independence and Autonomy:\n- Quality of work with minimal guidance\n- Self-sufficiency in delivery\n- Independence from management oversight\n\nAttitude:\n- Respect for others\n- Initiative taking\n- Handling mistakes and criticism\n- Active listening\n\nLeadership:\n- Emerging leadership skills\n- Project leadership\n- Proactiveness\n- Personal ownership of results\n\nTeamwork:\n- Collaboration within and across teams\n- Relationship maintenance with colleagues\n\nCommunication:\n- Clarity and timeliness\n- Transparency in work progress\n- Information sharing with team members\n\nEngagement:\n- Participation in discussions\n- Solution proposal\n- Constructive disagreement when needed\n\nCompany Goals:\n- Contribution to annual company objectives\n- Alignment with organizational aims\n\nSecurity:\n- Adherence to Information Security Policy\n- Security practice implementation\n- Computer locking when away from desk\n\nProfessional Etiquette:\n- Meeting punctuality\n- Compliance with company policies\n- Professional conduct\n\n3. Managerial Assessment (if applicable)\nFor each item, rate as: Unsatisfactory/Improvement needed/Meets expectations/Exceeds expectations/Truly exceptional/Not Applicable\n\nMentoring:\n- Support and guidance for junior team members\n\nManagement Skills:\n- Career growth promotion\n- Challenge assignment\n- Mentoring of other leads\n- Effective delegation\n\nTeam Culture:\n- Fostering positive environment\n- Supporting collaboration\n\nIndustry Visibility:\n- Conference participation\n- Public speaking\n- Blog post writing\n- Meetup hosting\n\nVision Communication:\n- Company vision understanding and explanation\n- Strategic direction setting\n- Goal alignment\n- Operating Principles promotion\n\n4. Strengths and Continuity\nProvide specific examples of:\n- Notable achievements this quarter\n- Successful projects\n- Positive behaviors to continue\n- Areas of excellence\n\n5. Areas for Improvement\nSpecify which areas need development (select and explain):\nA. Communication\nB. Work quality\nC. Teamwork\nD. Proactiveness\nE. Accountability\nF. Attention to detail\nG. Other\n\n6. Additional Comments\nProvide any other relevant feedback or suggestions for "@ + coworker + "'s development.\n\nWork logs for review:\n\n"@ + spec_reviews_text(rs)
}

/// Builds the generation request for one author from their records,
/// exactly as `spec_prompt` lays it out.
pub fn generate_review_prompt(coworker: &str, reviews: &Vec<Review>) -> (r: String)
    requires
        forall|i: int| 0 <= i < reviews@.len() ==> (#[trigger] reviews@[i]).wf(),
    ensures
        r@ == spec_prompt(coworker@, reviews_model(reviews@)),
{
    let ghost rs = reviews_model(reviews@);
    let mut text = String::new();
    let mut i: usize = 0;
    let n = reviews.len();
    proof {
        assert(text@ =~= spec_reviews_text(rs.take(0)));
    }
    while i < n
        invariant
            i <= n,
            n == reviews@.len(),
            rs == reviews_model(reviews@),
            forall|k: int| 0 <= k < reviews@.len() ==> (#[trigger] reviews@[k]).wf(),
            text@ == spec_reviews_text(rs.take(i as int)),
        decreases n - i,
    {
        proof {
            assert(rs.take(i as int + 1).drop_last() =~= rs.take(i as int));
            assert(rs.take(i as int + 1).last() == rs[i as int]);
            assert(rs[i as int] == reviews@[i as int].model());
        }
        text.append("Date: ");
        let ds = date_string(reviews[i].date);
        text.append(ds.as_str());
        text.append("\nContent:\n");
        text.append(reviews[i].content.as_str());
        text.append("\n---\n");
        proof {
            assert(text@ =~= spec_reviews_text(rs.take(i as int + 1)));
        }
        i = i + 1;
    }
    proof {
        assert(rs.take(n as int) =~= rs);
    }
    let mut out = String::new();
    out.append("Based on the following work logs for ");
    out.append(coworker);
    out.append(", please provide a comprehensive quarterly review. For each category, provide a rating and detailed explanation with specific examples from the work logs:\n\n1. Working Frequency\nRate how closely you worked with ");
    out.append(coworker);
    out.append(" this quarter:\n- Never\n- Almost never\n- Sometimes\n- Frequently\n- Daily\n\n2. Core Competencies (Rate each as: Unsatisfactory/Improvement needed/Meets expectations/Exceeds expectations/Truly exceptional/Not Applicable)\n\nWork Quality:\n- Accuracy and thoroughness\n- Productivity and competence\n- Detailed explanation required\n\nProblem Solving:\n- Reasoning and analysis capabilities\n- Solution identification\n- Willingness to tackle problems\n- Acceptance of new responsibilities\n\nWork Independence and Autonomy:\n- Quality of work with minimal guidance\n- Self-sufficiency in delivery\n- Independence from management oversight\n\nAttitude:\n- Respect for others\n- Initiative taking\n- Handling mistakes and criticism\n- Active listening\n\nLeadership:\n- Emerging leadership skills\n- Project leadership\n- Proactiveness\n- Personal ownership of results\n\nTeamwork:\n- Collaboration within and across teams\n- Relationship maintenance with colleagues\n\nCommunication:\n- Clarity and timeliness\n- Transparency in work progress\n- Information sharing with team members\n\nEngagement:\n- Participation in discussions\n- Solution proposal\n- Constructive disagreement when needed\n\nCompany Goals:\n- Contribution to annual company objectives\n- Alignment with organizational aims\n\nSecurity:\n- Adherence to Information Security Policy\n- Security practice implementation\n- Computer locking when away from desk\n\nProfessional Etiquette:\n- Meeting punctuality\n- Compliance with company policies\n- Professional conduct\n\n3. Managerial Assessment (if applicable)\nFor each item, rate as: Unsatisfactory/Improvement needed/Meets expectations/Exceeds expectations/Truly exceptional/Not Applicable\n\nMentoring:\n- Support and guidance for junior team members\n\nManagement Skills:\n- Career growth promotion\n- Challenge assignment\n- Mentoring of other leads\n- Effective delegation\n\nTeam Culture:\n- Fostering positive environment\n- Supporting collaboration\n\nIndustry Visibility:\n- Conference participation\n- Public speaking\n- Blog post writing\n- Meetup hosting\n\nVision Communication:\n- Company vision understanding and explanation\n- Strategic direction setting\n- Goal alignment\n- Operating Principles promotion\n\n4. Strengths and Continuity\nProvide specific examples of:\n- Notable achievements this quarter\n- Successful projects\n- Positive behaviors to continue\n- Areas of excellence\n\n5. Areas for Improvement\nSpecify which areas need development (select and explain):\nA. Communication\nB. Work quality\nC. Teamwork\nD. Proactiveness\nE. Accountability\nF. Attention to detail\nG. Other\n\n6. Additional Comments\nProvide any other relevant feedback or suggestions for ");
    out.append(coworker);
    out.append("'s development.\n\nWork logs for review:\n\n");
    out.append(text.as_str());
    proof {
        assert(out@ =~= spec_prompt(coworker@, rs));
    }
    out
}

} // verus!
