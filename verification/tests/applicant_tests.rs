//! Applicant parsing: status, handles, phone, questions, and the texts
//! built from a parsed row.

use cio::applicant::{
    normalize_status, parse_applicant, parse_handles, parse_question, sheet_cell_ref,
    ApplicantSheetColumns,
};

fn columns() -> ApplicantSheetColumns {
    ApplicantSheetColumns {
        timestamp: 0,
        name: 1,
        email: 2,
        location: 3,
        phone: 4,
        github: 5,
        resume: 6,
        materials: 7,
        status: 8,
        sent_email_received: 9,
        linkedin: 0,
        portfolio: 0,
        website: 0,
        value_reflected: 0,
        value_violated: 0,
        value_in_tension_1: 0,
        value_in_tension_2: 0,
    }
}

fn row() -> Vec<String> {
    vec![
        "4/22/2020 18:23:24".to_string(),
        "Grace Hopper".to_string(),
        "grace@example.com".to_string(),
        " San Francisco, CA ".to_string(),
        "(510) 874-5443".to_string(),
        "https://github.com/GraceH/".to_string(),
        "https://files.example/resume".to_string(),
        "https://files.example/materials".to_string(),
        "move to next steps!".to_string(),
        "TRUE".to_string(),
    ]
}

#[test]
fn normalizes_statuses_by_substring() {
    assert_eq!(normalize_status(&" Next Steps please ".to_string()), "Next steps");
    assert_eq!(normalize_status(&"DEFERRED".to_string()), "Deferred");
    assert_eq!(normalize_status(&"declined :(".to_string()), "Declined");
    assert_eq!(normalize_status(&"hired!".to_string()), "Hired");
    assert_eq!(normalize_status(&"consulting for now".to_string()), "Consulting");
    assert_eq!(normalize_status(&"keeping warm".to_string()), "Keeping warm");
    assert_eq!(normalize_status(&"???".to_string()), "Needs to be triaged");
}

#[test]
fn cleans_code_hosting_handles() {
    let (g, l) = parse_handles(&"https://github.com/GraceH/".to_string());
    assert_eq!(g, "@graceh");
    assert_eq!(l, "");
    let (g2, l2) = parse_handles(&"@plainuser".to_string());
    assert_eq!(g2, "@plainuser");
    assert_eq!(l2, "");
    let (g3, l3) = parse_handles(&"https://gitlab.com/OtherUser".to_string());
    assert_eq!(g3, "");
    assert_eq!(l3, "@otheruser");
    let (g4, l4) = parse_handles(&"   ".to_string());
    assert_eq!(g4, "");
    assert_eq!(l4, "");
}

#[test]
fn parses_a_whole_row() {
    let r = row();
    let (a, is_new) = parse_applicant(
        &r,
        &columns(),
        "Engineering",
        "sheet-123",
        "resume text".to_string(),
        "materials text".to_string(),
    )
    .expect("the timestamp parses");
    assert_eq!(a.name, "Grace Hopper");
    assert_eq!(a.role, "Engineering");
    assert_eq!(a.sheet_id, "sheet-123");
    assert_eq!(a.status, "Next steps");
    assert_eq!(a.submitted_time, 1587608604);
    assert_eq!(a.email, "grace@example.com");
    assert_eq!(a.location, "San Francisco, CA");
    assert_eq!(a.github, "@graceh");
    assert_eq!(a.gitlab, "");
    assert_eq!(a.country_code, "us");
    assert_eq!(a.phone, "+1 510-874-5443");
    assert_eq!(a.resume, "https://files.example/resume");
    assert_eq!(a.materials, "https://files.example/materials");
    assert!(a.sent_email_received);
    assert!(!is_new);
    assert_eq!(a.resume_contents, "resume text");
    assert_eq!(a.materials_contents, "materials text");
    assert_eq!(a.linkedin, "");
    assert!(a.values_in_tension.is_empty());
}

#[test]
fn unacknowledged_rows_are_new() {
    let mut r = row();
    r[9] = "false".to_string();
    let (a, is_new) = parse_applicant(
        &r,
        &columns(),
        "Engineering",
        "sheet-123",
        String::new(),
        String::new(),
    )
    .unwrap();
    assert!(!a.sent_email_received);
    assert!(is_new);
}

#[test]
fn bad_timestamp_refuses_the_row() {
    let mut r = row();
    r[0] = "yesterday".to_string();
    assert!(parse_applicant(
        &r,
        &columns(),
        "Engineering",
        "sheet-123",
        String::new(),
        String::new(),
    )
    .is_none());
}

#[test]
fn an_unparsable_phone_passes_through_as_digits() {
    let mut r = row();
    r[4] = "12".to_string();
    let (a, _) = parse_applicant(
        &r,
        &columns(),
        "Engineering",
        "sheet-123",
        String::new(),
        String::new(),
    )
    .unwrap();
    assert_eq!(a.phone, "12");
}

#[test]
fn pulls_answers_out_of_the_materials() {
    let materials = "Intro Q-ONE: here is my answer Q-TWO more";
    assert_eq!(parse_question("Q-ONE", "Q-TWO", materials), "here is my answer");
    assert_eq!(parse_question("MISSING", "Q-TWO", materials), "");
}

#[test]
fn names_the_acknowledgement_cell() {
    assert_eq!(sheet_cell_ref(9, 0), "J1");
    assert_eq!(sheet_cell_ref(0, 41), "A42");
}

#[test]
fn raises_issues_only_for_the_right_status_and_once() {
    let r = row();
    let (a, _) = parse_applicant(
        &r,
        &columns(),
        "Engineering",
        "sheet-123",
        String::new(),
        String::new(),
    )
    .unwrap();
    let issue = a.next_steps_issue(false).expect("status holds Next steps");
    assert_eq!(issue.title, "Hiring: Grace Hopper");
    assert_eq!(issue.assignee, "jessfraz");
    assert_eq!(issue.labels, vec!["hiring".to_string()]);
    assert!(issue.body.contains("Email: grace@example.com"));
    // the sheet's Pacific-offset cell, rendered back as civil UTC
    assert!(issue.body.contains("Submitted Date: 2020-04-23 02:23:24 UTC"));
    assert!(a.next_steps_issue(true).is_none());
    assert!(a.onboarding_issue(false).is_none());
}

#[test]
fn builds_the_notification_texts() {
    let r = row();
    let (a, _) = parse_applicant(
        &r,
        &columns(),
        "Engineering",
        "sheet-123",
        String::new(),
        String::new(),
    )
    .unwrap();
    let now = a.submitted_time;
    let msg = a.as_slack_msg(now);
    assert_eq!(msg.blocks.len(), 4);
    assert_eq!(
        msg.blocks[0].text.as_ref().unwrap().text,
        "*Grace Hopper*  <mailto:grace@example.com|grace@example.com>  San Francisco, CA"
    );
    assert_eq!(
        msg.blocks[3].elements[0].text,
        "<https://docs.google.com/spreadsheets/d/sheet-123|Engineering> Applicant | applied now | status: *Next steps*"
    );
    assert_eq!(msg.blocks[2].elements[0].text, "values not yet populated");
    let info = &msg.blocks[1].elements[0].text;
    assert!(info.contains("<https://files.example/resume|resume>"));
    assert!(info.contains(" | <https://github.com/graceh|github:@graceh>"));
    assert!(info.contains(" | <tel:+1 510-874-5443|+1 510-874-5443>"));

    let email = a.as_company_notification_email(now);
    assert!(email.starts_with("## Applicant Information for Engineering\n\nSubmitted now\nName: Grace Hopper"));
    assert!(email.contains("\nGitHub: @graceh (https://github.com/graceh)"));
}

#[test]
fn humanizes_the_application_age() {
    let r = row();
    let (a, _) = parse_applicant(
        &r,
        &columns(),
        "Engineering",
        "sheet-123",
        String::new(),
        String::new(),
    )
    .unwrap();
    assert_eq!(a.human_duration(a.submitted_time), "now");
    assert_eq!(a.human_duration(a.submitted_time + 3600), "an hour ago");
    // a submission time in the future is read as an age all the same
    assert_eq!(a.human_duration(a.submitted_time - 3600), "an hour ago");
}
