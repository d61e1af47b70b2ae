use imputator::jira::{
    created_worklog_outcome, i64_to_decimal, issue_outcome, issue_url, jira_user_outcome,
    login_url, replace_placeholders, replacen_placeholder, tempo_create_url, tempo_update_url,
    update_outcome, JiraError, LoginPayload, TempoPayload, TempoUpdatePayload,
};
use imputator::worktime::{time_to_seconds, time_to_seconds_checked};

#[test]
fn time_to_seconds_reads_hours_and_minutes() {
    assert_eq!(time_to_seconds("1h 30m"), 5400);
    assert_eq!(time_to_seconds("2h"), 7200);
    assert_eq!(time_to_seconds("45m"), 2700);
    assert_eq!(time_to_seconds("  1h\t\t15m \n"), 4500);
    assert_eq!(time_to_seconds("1h 1h"), 7200);
    assert_eq!(time_to_seconds("+3m"), 180);
}

#[test]
fn time_to_seconds_ignores_what_does_not_parse() {
    assert_eq!(time_to_seconds(""), 0);
    assert_eq!(time_to_seconds("h m"), 0);
    assert_eq!(time_to_seconds("1.5h"), 0);
    assert_eq!(time_to_seconds("1x 2d"), 0);
    assert_eq!(time_to_seconds("-1h 2m"), 120);
    assert_eq!(time_to_seconds("1hm"), 0);
    assert_eq!(time_to_seconds("1mh"), 0);
    assert_eq!(time_to_seconds("+h"), 0);
    assert_eq!(time_to_seconds("4294967296m"), 0);
}

#[test]
fn time_seconds_add_up_over_a_join() {
    let a = "1h 2";
    let b = "m 30m";
    let joined = format!("{} {}", a, b);
    assert_eq!(time_to_seconds(&joined), time_to_seconds(a) + time_to_seconds(b));
}

#[test]
fn time_to_seconds_checked_reports_overflow() {
    assert_eq!(time_to_seconds_checked("1193046h"), Some(4294965600));
    assert_eq!(time_to_seconds_checked("1193047h"), None);
    assert_eq!(time_to_seconds_checked("1193046h 28m"), Some(4294967280));
    assert_eq!(time_to_seconds_checked("1193046h 29m"), None);
    assert_eq!(time_to_seconds_checked("4294967295m"), None);
}

#[test]
fn urls_fill_the_company_and_the_key() {
    assert_eq!(login_url("domain"), "https://jira.domain.com/rest/auth/1/session");
    assert_eq!(
        imputator::jira::user_url("domain", "e_dmarco"),
        "https://jira.domain.com/rest/api/latest/user?username=e_dmarco"
    );
    assert_eq!(
        issue_url("domain", "DEV-930"),
        "https://jira.domain.com/rest/com.yasoon/1.0/view/issue/DEV-930"
    );
    assert_eq!(tempo_create_url("domain"), "https://jira.domain.com/rest/tempo-timesheets/4/worklogs");
    assert_eq!(
        tempo_update_url("domain", 3291889),
        "https://jira.domain.com/rest/tempo-timesheets/4/worklogs/3291889"
    );
    assert_eq!(
        tempo_update_url("domain", -12),
        "https://jira.domain.com/rest/tempo-timesheets/4/worklogs/-12"
    );
}

#[test]
fn placeholders_are_replaced_like_std() {
    for (s, v) in [("a{}b{}c", "X"), ("{}{}", "{}"), ("{{}}", "v"), ("{", "v"), ("", "v"), ("{}", "")] {
        assert_eq!(replace_placeholders(s, v), s.replace("{}", v));
        for n in 0..4usize {
            assert_eq!(replacen_placeholder(s, v, n), s.replacen("{}", v, n));
        }
    }
    assert_eq!(imputator::jira::user_url("a{}b", "u"), "https://jira.aub.com/rest/api/latest/user?username=u");
}

#[test]
fn decimal_matches_to_string() {
    for n in [0i64, 7, 10, 99, 100, 12345, -1, -10, i64::MAX, i64::MIN] {
        assert_eq!(i64_to_decimal(n), n.to_string());
    }
}

#[test]
fn payloads_carry_their_fields() {
    let l = LoginPayload::new("u", "p");
    assert_eq!(l.username, "u");
    assert_eq!(l.password, "p");
    let t = TempoPayload::new("JIRAUSER1".to_string(), 3600, &"desc".to_string(), "99".to_string(), &"2024-05-01".to_string());
    assert_eq!(t.billable_seconds, 3600);
    assert_eq!(t.time_spent_seconds, 3600);
    assert_eq!(t.origin_id, -1);
    assert_eq!(t.worker, "JIRAUSER1");
    assert_eq!(t.comment, "desc");
    assert_eq!(t.started, "2024-05-01");
    assert_eq!(t.origin_task_id, "99");
    assert_eq!(t.remaining_estimate, 0);
    assert_eq!(t.end_date, None);
    assert!(!t.include_non_working_days);
    let u = TempoUpdatePayload::new(60, &"d".to_string(), "7".to_string(), &"2024-05-01".to_string());
    assert_eq!(u.started, "2024-05-01T00:00:00.000");
    assert_eq!(u.billable_seconds, 60);
    assert_eq!(u.origin_id, -1);
}

#[test]
fn responses_become_results() {
    assert_eq!(jira_user_outcome(true, Some("K".to_string())).unwrap(), "K");
    assert!(matches!(jira_user_outcome(false, Some("K".to_string())), Err(JiraError::UserNotFound)));
    assert!(matches!(jira_user_outcome(true, None), Err(JiraError::UserNotFound)));
    assert_eq!(issue_outcome(true, Some("1".to_string())).unwrap(), "1");
    assert!(matches!(issue_outcome(true, None), Err(JiraError::IssueNotFound)));
    assert_eq!(created_worklog_outcome(true, &vec![5, 6]).unwrap(), 5);
    assert!(matches!(created_worklog_outcome(true, &vec![]), Err(JiraError::EmptyWorklogResponse)));
    assert!(matches!(created_worklog_outcome(false, &vec![5]), Err(JiraError::TempoPostFailed)));
    assert!(update_outcome(true, "200 OK", "").is_ok());
    let e = update_outcome(false, "400 Bad Request", "nope").unwrap_err();
    assert_eq!(e.message(), "Failed to update tempo: 400 Bad Request nope");
    assert_eq!(JiraError::UserNotFound.message(), "Failed to get user");
    assert_eq!(JiraError::IssueNotFound.message(), "Failed to get issue");
    assert_eq!(JiraError::EmptyWorklogResponse.message(), "Response array is empty");
    assert_eq!(JiraError::TempoPostFailed.message(), "Failed to post to tempo");
}

#[test]
fn words_split_like_split_whitespace() {
    for code in 0u32..0x3100 {
        if let Some(c) = char::from_u32(code) {
            let s = format!("1h{}2m", c);
            let expected: u32 = if s.split_whitespace().count() == 2 { 3720 } else { 0 };
            assert_eq!(time_to_seconds(&s), expected, "char {:x}", code);
        }
    }
}
