use vstd::prelude::*;

use crate::text::{chars_of, concat, push_chars, push_char};

verus! {

/// Whether `s` starts with the placeholder `{}` of the URL templates.
pub open spec fn starts_with_placeholder(s: Seq<char>) -> bool {
    s.len() >= 2 && s[0] == '{' && s[1] == '}'
}

/// `str::replacen(s, "{}", value, limit)`: the first `limit` placeholders,
/// found from the left without overlap, replaced by `value`.
pub open spec fn fill_first(s: Seq<char>, value: Seq<char>, limit: nat) -> Seq<char>
    decreases s.len(),
{
    if s.len() == 0 || limit == 0 {
        s
    } else if starts_with_placeholder(s) {
        value + fill_first(s.skip(2), value, (limit - 1) as nat)
    } else {
        seq![s[0]] + fill_first(s.drop_first(), value, limit)
    }
}

/// `str::replace(s, "{}", value)`: every placeholder, found from the left
/// without overlap, replaced by `value`.
pub open spec fn fill_all(s: Seq<char>, value: Seq<char>) -> Seq<char>
    decreases s.len(),
{
    if s.len() == 0 {
        s
    } else if starts_with_placeholder(s) {
        value + fill_all(s.skip(2), value)
    } else {
        seq![s[0]] + fill_all(s.drop_first(), value)
    }
}

/// Whether `s` holds no placeholder `{}` anywhere.
pub open spec fn has_no_placeholder(s: Seq<char>) -> bool {
    forall|i: int| 0 <= i < s.len() - 1 ==> !(#[trigger] s[i] == '{' && s[i + 1] == '}')
}

proof fn lemma_fill_prefix(p: Seq<char>, rest: Seq<char>, value: Seq<char>, limit: nat)
    requires
        has_no_placeholder(p),
        p.len() > 0 && rest.len() > 0 ==> !(p.last() == '{' && rest[0] == '}'),
    ensures
        fill_all(p + rest, value) == p + fill_all(rest, value),
        fill_first(p + rest, value, limit) == p + fill_first(rest, value, limit),
    decreases p.len(),
{
    if p.len() == 0 {
        assert(p + rest == rest);
        assert(p + fill_all(rest, value) == fill_all(rest, value));
        assert(p + fill_first(rest, value, limit) == fill_first(rest, value, limit));
    } else {
        let s = p + rest;
        assert(s[0] == p[0]);
        if p.len() >= 2 {
            assert(s[1] == p[1]);
            assert(!(p[0] == '{' && p[1] == '}'));
        } else if rest.len() > 0 {
            assert(s[1] == rest[0]);
        }
        assert(!starts_with_placeholder(s));
        assert(s.drop_first() == p.drop_first() + rest);
        assert forall|i: int| 0 <= i < p.drop_first().len() - 1 implies !(
        #[trigger] p.drop_first()[i] == '{' && p.drop_first()[i + 1] == '}') by {
            assert(p.drop_first()[i] == p[i + 1]);
            assert(p.drop_first()[i + 1] == p[i + 2]);
        }
        lemma_fill_prefix(p.drop_first(), rest, value, limit);
        assert(seq![p[0]] + (p.drop_first() + fill_all(rest, value)) == p + fill_all(
            rest,
            value,
        ));
        assert(seq![p[0]] + (p.drop_first() + fill_first(rest, value, limit)) == p
            + fill_first(rest, value, limit));
        if limit == 0 {
            assert(fill_first(rest, value, 0) == rest);
        }
    }
}

/// Filling a text that holds no placeholder leaves it as it is; filling a
/// text with one placeholder between two texts that hold none puts the whole
/// value in its place and keeps the texts around it: `p + "{}" + q` becomes
/// `p + value + q`, with `replace` and with `replacen` for any limit of at
/// least one.
pub proof fn lemma_fill_one_placeholder(p: Seq<char>, q: Seq<char>, value: Seq<char>, limit: nat)
    requires
        has_no_placeholder(p),
        has_no_placeholder(q),
        limit >= 1,
    ensures
        fill_all(p, value) == p,
        fill_first(p, value, limit) == p,
        fill_all(p + seq!['{', '}'] + q, value) == p + value + q,
        fill_first(p + seq!['{', '}'] + q, value, limit) == p + value + q,
{
    let e = Seq::<char>::empty();
    lemma_fill_prefix(p, e, value, limit);
    assert(p + e == p);
    assert(fill_all(e, value) == e);
    assert(fill_first(e, value, limit) == e);
    lemma_fill_prefix(q, e, value, (limit - 1) as nat);
    assert(q + e == q);
    let rest = seq!['{', '}'] + q;
    assert(p + seq!['{', '}'] + q == p + rest);
    lemma_fill_prefix(p, rest, value, limit);
    assert(starts_with_placeholder(rest));
    assert(rest.skip(2) == q);
    assert(p + (value + q) == p + value + q);
}

proof fn lemma_no_placeholder_join(x: Seq<char>, y: Seq<char>)
    requires
        has_no_placeholder(x),
        has_no_placeholder(y),
        x.len() > 0 && y.len() > 0 ==> !(x.last() == '{' && y[0] == '}'),
    ensures
        has_no_placeholder(x + y),
{
    let z = x + y;
    assert forall|i: int| 0 <= i < z.len() - 1 implies !(#[trigger] z[i] == '{' && z[i + 1]
        == '}') by {
        if i + 1 < x.len() {
            assert(z[i] == x[i] && z[i + 1] == x[i + 1]);
        } else if i >= x.len() {
            assert(z[i] == y[i - x.len()] && z[i + 1] == y[i + 1 - x.len()]);
        } else {
            assert(z[i] == x.last() && z[i + 1] == y[0]);
        }
    }
}

proof fn lemma_two_placeholders(a: Seq<char>, b: Seq<char>, company: Seq<char>, value: Seq<char>)
    requires
        has_no_placeholder(a),
        has_no_placeholder(b),
        has_no_placeholder(company),
        a.len() > 0 && a.last() != '{',
        b.len() > 0 && b[0] != '}',
    ensures
        fill_all(fill_first(a + seq!['{', '}'] + b + seq!['{', '}'], company, 1), value) == a
            + company + b + value,
{
    let ph = seq!['{', '}'];
    lemma_fill_prefix(a, ph + (b + ph), company, 1);
    assert(a + ph + b + ph == a + (ph + (b + ph)));
    assert((ph + (b + ph)).skip(2) =~= b + ph);
    assert(fill_first(b + ph, company, 0) == b + ph);
    let filled = a + company + b;
    assert(a + (company + (b + ph)) =~= filled + ph + Seq::<char>::empty());
    lemma_no_placeholder_join(a, company);
    if company.len() > 0 {
        assert((a + company).last() == company.last());
    } else {
        assert(a + company == a);
    }
    lemma_no_placeholder_join(a + company, b);
    assert(has_no_placeholder(Seq::<char>::empty()));
    lemma_fill_one_placeholder(filled, Seq::<char>::empty(), value, 1);
    assert(filled + value + Seq::<char>::empty() == filled + value);
}

/// The issue URL carries the company and the whole issue key in their
/// places, for a company name without `{}`.
pub proof fn lemma_issue_url_text(company: Seq<char>, value: Seq<char>)
    requires
        has_no_placeholder(company),
    ensures
        fill_all(fill_first(issue_template(), company, 1), value) == "https://jira."@ + company + ".com/rest/com.yasoon/1.0/view/issue/"@
            + value,
{
    reveal_strlit("https://jira.{}.com/rest/com.yasoon/1.0/view/issue/{}");
    reveal_strlit("https://jira.");
    reveal_strlit(".com/rest/com.yasoon/1.0/view/issue/");
    let ph = seq!['{', '}'];
    assert("https://jira.{}.com/rest/com.yasoon/1.0/view/issue/{}"@ =~= "https://jira."@ + ph + ".com/rest/com.yasoon/1.0/view/issue/"@ + ph);
    lemma_two_placeholders("https://jira."@, ".com/rest/com.yasoon/1.0/view/issue/"@, company, value);
}

/// The user URL carries the company and the whole user name in their
/// places, for a company name without `{}`.
pub proof fn lemma_user_url_text(company: Seq<char>, value: Seq<char>)
    requires
        has_no_placeholder(company),
    ensures
        fill_all(fill_first(user_template(), company, 1), value) == "https://jira."@ + company + ".com/rest/api/latest/user?username="@
            + value,
{
    reveal_strlit("https://jira.{}.com/rest/api/latest/user?username={}");
    reveal_strlit("https://jira.");
    reveal_strlit(".com/rest/api/latest/user?username=");
    let ph = seq!['{', '}'];
    assert("https://jira.{}.com/rest/api/latest/user?username={}"@ =~= "https://jira."@ + ph + ".com/rest/api/latest/user?username="@ + ph);
    lemma_two_placeholders("https://jira."@, ".com/rest/api/latest/user?username="@, company, value);
}

/// The worklog update URL carries the company and the whole worklog id
/// text in their places, for a company name without `{}`.
pub proof fn lemma_tempo_update_url_text(company: Seq<char>, value: Seq<char>)
    requires
        has_no_placeholder(company),
    ensures
        fill_all(fill_first(tempo_update_template(), company, 1), value) == "https://jira."@ + company + ".com/rest/tempo-timesheets/4/worklogs/"@
            + value,
{
    reveal_strlit("https://jira.{}.com/rest/tempo-timesheets/4/worklogs/{}");
    reveal_strlit("https://jira.");
    reveal_strlit(".com/rest/tempo-timesheets/4/worklogs/");
    let ph = seq!['{', '}'];
    assert("https://jira.{}.com/rest/tempo-timesheets/4/worklogs/{}"@ =~= "https://jira."@ + ph + ".com/rest/tempo-timesheets/4/worklogs/"@ + ph);
    lemma_two_placeholders("https://jira."@, ".com/rest/tempo-timesheets/4/worklogs/"@, company, value);
}

/// The login URL carries the company in its place, for a company name
/// without `{}`.
pub proof fn lemma_login_url_text(company: Seq<char>)
    requires
        has_no_placeholder(company),
    ensures
        fill_first(login_template(), company, 1) == "https://jira."@ + company + ".com/rest/auth/1/session"@,
{
    reveal_strlit("https://jira.{}.com/rest/auth/1/session");
    reveal_strlit("https://jira.");
    reveal_strlit(".com/rest/auth/1/session");
    let ph = seq!['{', '}'];
    assert("https://jira.{}.com/rest/auth/1/session"@ =~= "https://jira."@ + ph + ".com/rest/auth/1/session"@);
    assert(has_no_placeholder("https://jira."@));
    assert(has_no_placeholder(".com/rest/auth/1/session"@));
    lemma_fill_one_placeholder("https://jira."@, ".com/rest/auth/1/session"@, company, 1);
}

/// The worklog creation URL carries the company in its place, for a
/// company name without `{}`.
pub proof fn lemma_tempo_create_url_text(company: Seq<char>)
    requires
        has_no_placeholder(company),
    ensures
        fill_first(tempo_create_template(), company, 1) == "https://jira."@ + company + ".com/rest/tempo-timesheets/4/worklogs"@,
{
    reveal_strlit("https://jira.{}.com/rest/tempo-timesheets/4/worklogs");
    reveal_strlit("https://jira.");
    reveal_strlit(".com/rest/tempo-timesheets/4/worklogs");
    let ph = seq!['{', '}'];
    assert("https://jira.{}.com/rest/tempo-timesheets/4/worklogs"@ =~= "https://jira."@ + ph + ".com/rest/tempo-timesheets/4/worklogs"@);
    assert(has_no_placeholder("https://jira."@));
    assert(has_no_placeholder(".com/rest/tempo-timesheets/4/worklogs"@));
    lemma_fill_one_placeholder("https://jira."@, ".com/rest/tempo-timesheets/4/worklogs"@, company, 1);
}

/// `template.replacen("{}", value, limit)`.
pub fn replacen_placeholder(template: &str, value: &str, limit: usize) -> (r: String)
    ensures
        r@ == fill_first(template@, value@, limit as nat),
{
    let t = chars_of(template);
    let v = chars_of(value);
    let n = t.len();
    let mut r = String::new();
    let mut i: usize = 0;
    let mut left: usize = limit;
    assert(t@.skip(0) == t@);
    assert(Seq::<char>::empty() + fill_first(t@, v@, limit as nat) == fill_first(t@, v@, limit as nat));
    while i < n
        invariant
            i <= n == t@.len(),
            t@ == template@,
            v@ == value@,
            r@ + fill_first(t@.skip(i as int), v@, left as nat) == fill_first(
                t@,
                v@,
                limit as nat,
            ),
        decreases n - i,
    {
        let ghost rest = t@.skip(i as int);
        let ghost old_r = r@;
        if left > 0 && i + 1 < n && t[i] == '{' && t[i + 1] == '}' {
            assert(rest.skip(2) == t@.skip(i + 2));
            push_chars(&mut r, &v);
            assert(old_r + (v@ + fill_first(t@.skip(i + 2), v@, (left - 1) as nat)) == r@
                + fill_first(t@.skip(i + 2), v@, (left - 1) as nat));
            left -= 1;
            i += 2;
        } else {
            assert(rest.drop_first() == t@.skip(i + 1));
            push_char(&mut r, t[i]);
            assert(old_r + (seq![t@[i as int]] + fill_first(t@.skip(i + 1), v@, left as nat))
                == r@ + fill_first(t@.skip(i + 1), v@, left as nat));
            if left == 0 {
                assert(fill_first(rest, v@, 0) == rest);
                assert(fill_first(t@.skip(i + 1), v@, 0) == t@.skip(i + 1));
                assert(rest == seq![t@[i as int]] + t@.skip(i + 1));
            }
            i += 1;
        }
    }
    assert(r@ + fill_first(t@.skip(n as int), v@, left as nat) == r@);
    r
}

/// `template.replace("{}", value)`.
pub fn replace_placeholders(template: &str, value: &str) -> (r: String)
    ensures
        r@ == fill_all(template@, value@),
{
    let t = chars_of(template);
    let v = chars_of(value);
    let n = t.len();
    let mut r = String::new();
    let mut i: usize = 0;
    assert(t@.skip(0) == t@);
    assert(Seq::<char>::empty() + fill_all(t@, v@) == fill_all(t@, v@));
    while i < n
        invariant
            i <= n == t@.len(),
            t@ == template@,
            v@ == value@,
            r@ + fill_all(t@.skip(i as int), v@) == fill_all(t@, v@),
        decreases n - i,
    {
        let ghost rest = t@.skip(i as int);
        let ghost old_r = r@;
        if i + 1 < n && t[i] == '{' && t[i + 1] == '}' {
            assert(rest.skip(2) == t@.skip(i + 2));
            push_chars(&mut r, &v);
            assert(old_r + (v@ + fill_all(t@.skip(i + 2), v@)) == r@ + fill_all(
                t@.skip(i + 2),
                v@,
            ));
            i += 2;
        } else {
            assert(rest.drop_first() == t@.skip(i + 1));
            push_char(&mut r, t[i]);
            assert(old_r + (seq![t@[i as int]] + fill_all(t@.skip(i + 1), v@)) == r@ + fill_all(
                t@.skip(i + 1),
                v@,
            ));
            i += 1;
        }
    }
    assert(r@ + fill_all(t@.skip(n as int), v@) == r@);
    r
}


/// The character of a decimal digit.
pub open spec fn digit_char(d: nat) -> char {
    (48 + d) as char
}

/// The decimal digits of a natural number, most significant first, without
/// leading zeros (`0` is written `"0"`).
pub open spec fn decimal_digits(n: nat) -> Seq<char>
    decreases n,
{
    if n < 10 {
        seq![digit_char(n)]
    } else {
        decimal_digits(n / 10).push(digit_char(n % 10))
    }
}

/// `i64::to_string`: a `-` before the digits of a negative number.
pub open spec fn decimal_i64(n: i64) -> Seq<char> {
    if n < 0 {
        seq!['-'] + decimal_digits((-n) as nat)
    } else {
        decimal_digits(n as nat)
    }
}

fn push_decimal_digits(r: &mut String, n: u64)
    ensures
        final(r)@ == old(r)@ + decimal_digits(n as nat),
    decreases n,
{
    if n >= 10 {
        push_decimal_digits(r, n / 10);
    }
    let d = (n % 10) as u8;
    let c = (48u8 + d) as char;
    push_char(r, c);
}

/// The decimal text of `n`, as `n.to_string()` writes it.
pub fn i64_to_decimal(n: i64) -> (r: String)
    ensures
        r@ == decimal_i64(n),
{
    let mut r = String::new();
    if n < 0 {
        push_char(&mut r, '-');
        let m: u64 = (-(n as i128)) as u64;
        push_decimal_digits(&mut r, m);
    } else {
        push_decimal_digits(&mut r, n as u64);
        assert(Seq::<char>::empty() + decimal_digits(n as nat) == decimal_digits(n as nat));
    }
    r
}


/// The template of the Jira login URL; `{}` stands for the company.
pub open spec fn login_template() -> Seq<char> {
    "https://jira.{}.com/rest/auth/1/session"@
}

/// The template of the Jira user URL; the company, then the user name.
pub open spec fn user_template() -> Seq<char> {
    "https://jira.{}.com/rest/api/latest/user?username={}"@
}

/// The template of the Jira issue URL; the company, then the issue key.
pub open spec fn issue_template() -> Seq<char> {
    "https://jira.{}.com/rest/com.yasoon/1.0/view/issue/{}"@
}

/// The template of the URL that creates Tempo worklogs; `{}` stands for the
/// company.
pub open spec fn tempo_create_template() -> Seq<char> {
    "https://jira.{}.com/rest/tempo-timesheets/4/worklogs"@
}

/// The template of the URL that updates a Tempo worklog; the company, then
/// the worklog id.
pub open spec fn tempo_update_template() -> Seq<char> {
    "https://jira.{}.com/rest/tempo-timesheets/4/worklogs/{}"@
}

/// The login URL of the company's Jira.
pub fn login_url(company: &str) -> (r: String)
    ensures
        r@ == fill_first(login_template(), company@, 1),
{
    replacen_placeholder("https://jira.{}.com/rest/auth/1/session", company, 1)
}

/// The URL that looks up `user` in the company's Jira: the first `{}` takes
/// the company, then every `{}` left takes the user name.
pub fn user_url(company: &str, user: &str) -> (r: String)
    ensures
        r@ == fill_all(fill_first(user_template(), company@, 1), user@),
{
    let base = replacen_placeholder(
        "https://jira.{}.com/rest/api/latest/user?username={}",
        company,
        1,
    );
    replace_placeholders(base.as_str(), user)
}

/// The URL that looks up `issue` in the company's Jira: the first `{}` takes
/// the company, then every `{}` left takes the issue key.
pub fn issue_url(company: &str, issue: &str) -> (r: String)
    ensures
        r@ == fill_all(fill_first(issue_template(), company@, 1), issue@),
{
    let base = replacen_placeholder(
        "https://jira.{}.com/rest/com.yasoon/1.0/view/issue/{}",
        company,
        1,
    );
    replace_placeholders(base.as_str(), issue)
}

/// The URL that creates Tempo worklogs in the company's Jira.
pub fn tempo_create_url(company: &str) -> (r: String)
    ensures
        r@ == fill_first(tempo_create_template(), company@, 1),
{
    replacen_placeholder("https://jira.{}.com/rest/tempo-timesheets/4/worklogs", company, 1)
}

/// The URL that updates the Tempo worklog `tempo_id` in the company's Jira:
/// the first `{}` takes the company, then every `{}` left takes the id in
/// decimal.
pub fn tempo_update_url(company: &str, tempo_id: i64) -> (r: String)
    ensures
        r@ == fill_all(fill_first(tempo_update_template(), company@, 1), decimal_i64(tempo_id)),
{
    let base = replacen_placeholder(
        "https://jira.{}.com/rest/tempo-timesheets/4/worklogs/{}",
        company,
        1,
    );
    let id = i64_to_decimal(tempo_id);
    replace_placeholders(base.as_str(), id.as_str())
}


/// What the Jira login is sent.
#[derive(Debug)]
pub struct LoginPayload {
    pub username: String,
    pub password: String,
}

impl LoginPayload {
    /// The login of `username` with `password`.
    pub fn new(username: &str, password: &str) -> (r: LoginPayload)
        ensures
            r.username@ == username@,
            r.password@ == password@,
    {
        LoginPayload { username: username.to_owned(), password: password.to_owned() }
    }
}

/// What Tempo is sent to create a worklog (its empty `attributes` object is
/// left to the encoding).
#[derive(Debug)]
pub struct TempoPayload {
    pub billable_seconds: u32,
    pub origin_id: i32,
    pub worker: String,
    pub comment: String,
    pub started: String,
    pub time_spent_seconds: u32,
    pub origin_task_id: String,
    pub remaining_estimate: u32,
    pub end_date: Option<String>,
    pub include_non_working_days: bool,
}

impl TempoPayload {
    /// The worklog of `seconds` of work by `jira_user` on the issue
    /// `issue_id`, started on `day`, described by `description`; billable
    /// for all of it, with no origin, no remaining estimate, no end date and
    /// working days only.
    pub fn new(
        jira_user: String,
        seconds: u32,
        description: &String,
        issue_id: String,
        day: &String,
    ) -> (r: TempoPayload)
        ensures
            r.billable_seconds == seconds,
            r.origin_id == -1,
            r.worker@ == jira_user@,
            r.comment@ == description@,
            r.started@ == day@,
            r.time_spent_seconds == seconds,
            r.origin_task_id@ == issue_id@,
            r.remaining_estimate == 0,
            r.end_date is None,
            !r.include_non_working_days,
    {
        TempoPayload {
            billable_seconds: seconds,
            origin_id: -1,
            worker: jira_user,
            comment: description.clone(),
            started: day.clone(),
            time_spent_seconds: seconds,
            origin_task_id: issue_id,
            remaining_estimate: 0,
            end_date: None,
            include_non_working_days: false,
        }
    }
}

/// The time of day at which an updated worklog starts.
pub open spec fn start_of_day() -> Seq<char> {
    "T00:00:00.000"@
}

/// What Tempo is sent to update a worklog.
#[derive(Debug)]
pub struct TempoUpdatePayload {
    pub billable_seconds: u32,
    pub origin_id: i32,
    pub comment: String,
    pub started: String,
    pub time_spent_seconds: u32,
    pub origin_task_id: String,
    pub remaining_estimate: u32,
    pub end_date: Option<String>,
    pub include_non_working_days: bool,
}

impl TempoUpdatePayload {
    /// The update to `seconds` of work on the issue `issue_id`, started at
    /// midnight of `day`, described by `description`; otherwise as
    /// [`TempoPayload::new`].
    pub fn new(seconds: u32, description: &String, issue_id: String, day: &String) -> (r:
        TempoUpdatePayload)
        ensures
            r.billable_seconds == seconds,
            r.origin_id == -1,
            r.comment@ == description@,
            r.started@ == day@ + start_of_day(),
            r.time_spent_seconds == seconds,
            r.origin_task_id@ == issue_id@,
            r.remaining_estimate == 0,
            r.end_date is None,
            !r.include_non_working_days,
    {
        TempoUpdatePayload {
            billable_seconds: seconds,
            origin_id: -1,
            comment: description.clone(),
            started: concat(day.as_str(), "T00:00:00.000"),
            time_spent_seconds: seconds,
            origin_task_id: issue_id,
            remaining_estimate: 0,
            end_date: None,
            include_non_working_days: false,
        }
    }
}

/// How a request to Jira or Tempo failed.
#[derive(Debug)]
pub enum JiraError {
    /// The user lookup failed or its answer did not decode.
    UserNotFound,
    /// The issue lookup failed or its answer did not decode.
    IssueNotFound,
    /// Tempo created the worklog but listed none.
    EmptyWorklogResponse,
    /// Tempo refused to create the worklog.
    TempoPostFailed,
    /// Tempo refused the update; the message names the status and the answer.
    TempoUpdateFailed(String),
}

/// The message of a failed update: the status, a space, and the answer.
pub open spec fn update_failure_message(status: Seq<char>, body: Seq<char>) -> Seq<char> {
    "Failed to update tempo: "@ + status + " "@ + body
}

/// The text that reports each error.
pub open spec fn error_message(e: JiraError) -> Seq<char> {
    match e {
        JiraError::UserNotFound => "Failed to get user"@,
        JiraError::IssueNotFound => "Failed to get issue"@,
        JiraError::EmptyWorklogResponse => "Response array is empty"@,
        JiraError::TempoPostFailed => "Failed to post to tempo"@,
        JiraError::TempoUpdateFailed(m) => m@,
    }
}

impl JiraError {
    /// The text that reports this error.
    pub fn message(&self) -> (r: String)
        ensures
            r@ == error_message(*self),
    {
        match self {
            JiraError::UserNotFound => "Failed to get user".to_owned(),
            JiraError::IssueNotFound => "Failed to get issue".to_owned(),
            JiraError::EmptyWorklogResponse => "Response array is empty".to_owned(),
            JiraError::TempoPostFailed => "Failed to post to tempo".to_owned(),
            JiraError::TempoUpdateFailed(m) => m.clone(),
        }
    }
}

/// The Jira key of a user from the lookup's answer: `success` is whether
/// the status was a success, `key` the key decoded from the answer (`None`
/// where there was none to decode or it did not decode).
pub fn jira_user_outcome(success: bool, key: Option<String>) -> (r: Result<String, JiraError>)
    ensures
        r == (if success && key is Some {
            Ok(key->0)
        } else {
            Err(JiraError::UserNotFound)
        }),
{
    match key {
        Some(k) if success => Ok(k),
        _ => Err(JiraError::UserNotFound),
    }
}

/// The Jira id of an issue from the lookup's answer, as
/// [`jira_user_outcome`] reads it.
pub fn issue_outcome(success: bool, issue_id: Option<String>) -> (r: Result<String, JiraError>)
    ensures
        r == (if success && issue_id is Some {
            Ok(issue_id->0)
        } else {
            Err(JiraError::IssueNotFound)
        }),
{
    match issue_id {
        Some(k) if success => Ok(k),
        _ => Err(JiraError::IssueNotFound),
    }
}

/// The id of the worklog that Tempo created: the first that its answer
/// lists (`worklog_ids`, read only on success).
pub fn created_worklog_outcome(success: bool, worklog_ids: &Vec<i64>) -> (r: Result<
    i64,
    JiraError,
>)
    ensures
        r == (if !success {
            Err(JiraError::TempoPostFailed)
        } else if worklog_ids@.len() > 0 {
            Ok(worklog_ids@[0])
        } else {
            Err(JiraError::EmptyWorklogResponse)
        }),
{
    if !success {
        Err(JiraError::TempoPostFailed)
    } else if worklog_ids.len() > 0 {
        Ok(worklog_ids[0])
    } else {
        Err(JiraError::EmptyWorklogResponse)
    }
}

/// The outcome of an update: nothing on success, else the error that names
/// the status and the answer (`body`, read only on failure).
pub fn update_outcome(success: bool, status: &str, body: &str) -> (r: Result<(), JiraError>)
    ensures
        success ==> r is Ok,
        !success ==> (r matches Err(JiraError::TempoUpdateFailed(m)) && m@
            == update_failure_message(status@, body@)),
{
    if success {
        Ok(())
    } else {
        let a = concat("Failed to update tempo: ", status);
        let b = concat(a.as_str(), " ");
        let m = concat(b.as_str(), body);
        Err(JiraError::TempoUpdateFailed(m))
    }
}

} // verus!
