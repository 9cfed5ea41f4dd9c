//! Generates the prometheus metrics

use crate::date::Date;
use crate::gitlab::token::Token;
use crate::text::signed_decimal_string;
use vstd::prelude::*;

verus! {

/// The kind of a token, as its label says it.
pub open spec fn token_type(token: Token) -> Seq<char> {
    match token {
        Token::Group { .. } => "group"@,
        Token::Project { .. } => "project"@,
        Token::User { .. } => "user"@,
    }
}

/// The name of a token.
pub open spec fn token_name(token: Token) -> Seq<char> {
    match token {
        Token::Group { token, .. } => token.name@,
        Token::Project { token, .. } => token.name@,
        Token::User { token, .. } => token.name@,
    }
}

/// Whether a token is active.
pub open spec fn token_active(token: Token) -> bool {
    match token {
        Token::Group { token, .. } => token.active,
        Token::Project { token, .. } => token.active,
        Token::User { token, .. } => token.active,
    }
}

/// The day on which a token expires, if it does.
pub open spec fn token_expires_at(token: Token) -> Option<Date> {
    match token {
        Token::Group { token, .. } => token.expires_at,
        Token::Project { token, .. } => token.expires_at,
        Token::User { token, .. } => token.expires_at,
    }
}

/// The full path of a token.
pub open spec fn token_full_path(token: Token) -> Seq<char> {
    match token {
        Token::Group { full_path, .. } => full_path@,
        Token::Project { full_path, .. } => full_path@,
        Token::User { full_path, .. } => full_path@,
    }
}

/// A truth value as a label.
pub open spec fn bool_text(b: bool) -> Seq<char> {
    if b {
        "true"@
    } else {
        "false"@
    }
}

/// The value of the metric: the number of days before the token expires, or `NaN` when the
/// token has no expiry date.
pub open spec fn metric_value(
    expires_at: Option<Date>,
    today: crate::date::CalendarDay,
) -> Seq<char> {
    match expires_at {
        Some(expiry) => crate::text::signed_decimal(crate::date::days_from(today, expiry@)),
        None => "NaN"@,
    }
}

/// The metric line of a token up to its value: the name of the metric and the labels.
pub open spec fn metric_head(token: Token) -> Seq<char> {
    "gitlab_token_expiration{token_type=\""@ + token_type(token) + "\",full_path=\""@
        + token_full_path(token) + "\",token_name=\""@ + token_name(token) + "\",active=\""@
        + bool_text(token_active(token)) + "\"} "@
}

/// The metric line of a token.
pub open spec fn metric_line(token: Token, today: crate::date::CalendarDay) -> Seq<char> {
    metric_head(token) + metric_value(token_expires_at(token), today) + "\n"@
}

/// Generates the prometheus metric line for a single token.
///
/// The metric is always `gitlab_token_expiration` and its value is the number
/// of days before the token expires (`NaN` when the token has no expiry date),
/// with generalized labels (`token_type`, `full_path`, `token_name`, `active`).
pub fn build(gitlab_token: &Token) -> (res: Result<String, core::fmt::Error>)
    ensures
        res matches Ok(line) && exists|today: crate::date::CalendarDay|
            today.is_valid() && line@ == #[trigger] metric_line(*gitlab_token, today),
        token_expires_at(*gitlab_token) is None ==> res.unwrap()@ == metric_head(*gitlab_token)
            + "NaN\n"@,
{
    let date_now = Date::today();
    proof {
        reveal_strlit("NaN");
        reveal_strlit("\n");
        reveal_strlit("NaN\n");
        assert(metric_head(*gitlab_token) + "NaN"@ + "\n"@ =~= metric_head(*gitlab_token)
            + "NaN\n"@);
    }
    Ok(build_at(gitlab_token, date_now))
}

/// Generates the prometheus metric line for a single token, as of the day `date_now`.
pub fn build_at(gitlab_token: &Token, date_now: Date) -> (line: String)
    ensures
        line@ == metric_line(*gitlab_token, date_now@),
{
    let token_type = match gitlab_token {
        Token::Group { .. } => "group",
        Token::Project { .. } => "project",
        Token::User { .. } => "user",
    };

    let (name, active, expires_at, full_path) = match gitlab_token {
        Token::Group { token, full_path, .. } | Token::Project { token, full_path, .. } => (
            &token.name,
            token.active,
            token.expires_at,
            full_path,
        ),
        Token::User { token, full_path } => (
            &token.name,
            token.active,
            token.expires_at,
            full_path,
        ),
    };

    // The 7d/14d alerts match on the numeric value, so non-expiring tokens must
    // *not* land in the `0..=14` range: `NaN` keeps them out of every comparison.
    let days = match expires_at {
        Some(expiry) => signed_decimal_string(expiry.days_from(date_now)),
        None => String::from_str("NaN"),
    };

    let active_text = if active {
        "true"
    } else {
        "false"
    };

    String::from_str("gitlab_token_expiration{token_type=\"").concat(token_type).concat(
        "\",full_path=\"",
    ).concat(full_path.as_str()).concat("\",token_name=\"").concat(name.as_str()).concat(
        "\",active=\"",
    ).concat(active_text).concat("\"} ").concat(days.as_str()).concat("\n")
}

/// The value is a number exactly for the tokens that expire: `NaN`, the value of the others, is
/// the text of no number, so that no comparison with a number takes them in.
pub proof fn law_only_expiring_tokens_have_a_number(
    expires_at: Option<Date>,
    today: crate::date::CalendarDay,
    number: int,
)
    ensures
        expires_at is None ==> metric_value(expires_at, today) != crate::text::signed_decimal(
            number,
        ),
        expires_at is Some ==> metric_value(expires_at, today) != "NaN"@,
        expires_at is Some ==> (metric_value(expires_at, today) == crate::text::signed_decimal(
            number,
        ) <==> number == crate::date::days_from(today, expires_at->0@)),
{
    reveal_strlit("NaN");
    lemma_number_starts_with_digit_or_minus(number);
    if let Some(expiry) = expires_at {
        let days = crate::date::days_from(today, expiry@);
        lemma_number_starts_with_digit_or_minus(days);
        if crate::text::signed_decimal(days) == crate::text::signed_decimal(number) {
            crate::text::law_signed_decimal_injective(days, number);
        }
    }
}

/// The text of a number starts with a digit or a minus sign.
proof fn lemma_number_starts_with_digit_or_minus(number: int)
    ensures
        crate::text::signed_decimal(number).len() > 0,
        ({
            let first = crate::text::signed_decimal(number)[0];
            first == '-' || crate::text::is_digit(first)
        }),
{
    let magnitude = if number < 0 {
        -number
    } else {
        number
    };
    crate::text::law_decimal_spells_number(magnitude as nat);
    assert(crate::text::is_digit(crate::text::decimal(magnitude as nat)[0]));
}

/// The value is `0` on the day on which the token expires, and goes down by one with each day
/// that passes.
pub proof fn law_value_counts_down_to_expiry(expiry: Date, today: crate::date::CalendarDay)
    requires
        today.is_valid(),
        expiry@.is_valid(),
    ensures
        metric_value(Some(expiry), today) == "0"@ <==> today == expiry@,
        metric_value(Some(expiry), crate::date::day_after(today)) == crate::text::signed_decimal(
            crate::date::days_from(today, expiry@) - 1,
        ),
{
    reveal_strlit("0");
    crate::date::law_days_tell_order(today, expiry@);
    crate::date::law_days_count_down(today, expiry@);
    assert("0"@ =~= crate::text::signed_decimal(0));
    if metric_value(Some(expiry), today) == "0"@ {
        crate::text::law_signed_decimal_injective(crate::date::days_from(today, expiry@), 0);
    }
}

/// Up to the first `mark[0]`, two texts that are the same hold the same, and so they do after
/// `mark`.
proof fn lemma_same_up_to_mark(
    a: Seq<char>,
    after_a: Seq<char>,
    b: Seq<char>,
    after_b: Seq<char>,
    mark: Seq<char>,
)
    requires
        mark.len() > 0,
        !a.contains(mark[0]),
        !b.contains(mark[0]),
        a + (mark + after_a) == b + (mark + after_b),
    ensures
        a == b,
        after_a == after_b,
{
    let text = a + (mark + after_a);
    assert(text[a.len() as int] == mark[0]);
    assert(text[b.len() as int] == mark[0]);
    if a.len() < b.len() {
        assert(b[a.len() as int] == text[a.len() as int]);
        assert(b.contains(b[a.len() as int]));
    }
    if b.len() < a.len() {
        assert(a[b.len() as int] == text[b.len() as int]);
        assert(a.contains(a[b.len() as int]));
    }
    assert(text.take(a.len() as int) =~= a);
    assert(text.take(a.len() as int) =~= b);
    assert(text.skip((a.len() + mark.len()) as int) =~= after_a);
    assert(text.skip((a.len() + mark.len()) as int) =~= after_b);
}

/// A metric line from its label `active` on, where `end` is what follows the labels.
spec fn from_active(token: Token, end: Seq<char>) -> Seq<char> {
    bool_text(token_active(token)) + ("\"} "@ + end)
}

/// A metric line from its label `token_name` on, where `end` is what follows the labels.
spec fn from_name(token: Token, end: Seq<char>) -> Seq<char> {
    token_name(token) + ("\",active=\""@ + from_active(token, end))
}

/// A metric line from its label `full_path` on, where `end` is what follows the labels.
spec fn from_path(token: Token, end: Seq<char>) -> Seq<char> {
    token_full_path(token) + ("\",token_name=\""@ + from_name(token, end))
}

/// A metric line from its label `token_type` on, where `end` is what follows the labels.
spec fn from_type(token: Token, end: Seq<char>) -> Seq<char> {
    token_type(token) + ("\",full_path=\""@ + from_path(token, end))
}

/// A metric line, taken apart from its front.
proof fn lemma_line_parts(token: Token, today: crate::date::CalendarDay)
    ensures
        metric_line(token, today) == "gitlab_token_expiration{token_type=\""@ + from_type(
            token,
            metric_value(token_expires_at(token), today) + "\n"@,
        ),
{
    let end = metric_value(token_expires_at(token), today) + "\n"@;
    let intro = "gitlab_token_expiration{token_type=\""@;
    let typed = intro + token_type(token) + "\",full_path=\""@;
    let pathed = typed + token_full_path(token) + "\",token_name=\""@;
    let named = pathed + token_name(token) + "\",active=\""@;
    let head = named + bool_text(token_active(token)) + "\"} "@;
    assert(metric_line(token, today) =~= head + end);
    assert(head + end =~= named + from_active(token, end));
    assert(named + from_active(token, end) =~= pathed + from_name(token, end));
    assert(pathed + from_name(token, end) =~= typed + from_path(token, end));
    assert(typed + from_path(token, end) =~= intro + from_type(token, end));
}

/// Neither the type of a token nor a truth value holds a quote, and they tell apart what they
/// stand for.
proof fn lemma_plain_labels(token: Token)
    ensures
        !token_type(token).contains('"'),
        !bool_text(token_active(token)).contains('"'),
        bool_text(true) != bool_text(false),
{
    reveal_strlit("group");
    reveal_strlit("project");
    reveal_strlit("user");
    reveal_strlit("true");
    reveal_strlit("false");
    assert("group"@ =~= seq!['g', 'r', 'o', 'u', 'p']);
    assert("project"@ =~= seq!['p', 'r', 'o', 'j', 'e', 'c', 't']);
    assert("user"@ =~= seq!['u', 's', 'e', 'r']);
    assert("true"@ =~= seq!['t', 'r', 'u', 'e']);
    assert("false"@ =~= seq!['f', 'a', 'l', 's', 'e']);
}

/// A metric line tells its labels and its value: two tokens with the same line have the same
/// type, full path, name, activity and value, as long as no path or name holds a quote.
pub proof fn law_line_tells_labels_and_value(
    a: Token,
    day_a: crate::date::CalendarDay,
    b: Token,
    day_b: crate::date::CalendarDay,
)
    requires
        !token_full_path(a).contains('"'),
        !token_name(a).contains('"'),
        !token_full_path(b).contains('"'),
        !token_name(b).contains('"'),
        metric_line(a, day_a) == metric_line(b, day_b),
    ensures
        token_type(a) == token_type(b),
        token_full_path(a) == token_full_path(b),
        token_name(a) == token_name(b),
        token_active(a) == token_active(b),
        metric_value(token_expires_at(a), day_a) == metric_value(token_expires_at(b), day_b),
{
    reveal_strlit("\",full_path=\"");
    reveal_strlit("\",token_name=\"");
    reveal_strlit("\",active=\"");
    reveal_strlit("\"} ");
    lemma_line_parts(a, day_a);
    lemma_line_parts(b, day_b);
    lemma_plain_labels(a);
    lemma_plain_labels(b);
    let value_a = metric_value(token_expires_at(a), day_a);
    let value_b = metric_value(token_expires_at(b), day_b);
    let ea = value_a + "\n"@;
    let eb = value_b + "\n"@;
    let intro = "gitlab_token_expiration{token_type=\""@;
    let line = metric_line(a, day_a);
    assert(line.skip(intro.len() as int) =~= from_type(a, ea));
    assert(line.skip(intro.len() as int) =~= from_type(b, eb));
    lemma_same_up_to_mark(
        token_type(a),
        from_path(a, ea),
        token_type(b),
        from_path(b, eb),
        "\",full_path=\""@,
    );
    lemma_same_up_to_mark(
        token_full_path(a),
        from_name(a, ea),
        token_full_path(b),
        from_name(b, eb),
        "\",token_name=\""@,
    );
    lemma_same_up_to_mark(
        token_name(a),
        from_active(a, ea),
        token_name(b),
        from_active(b, eb),
        "\",active=\""@,
    );
    lemma_same_up_to_mark(
        bool_text(token_active(a)),
        ea,
        bool_text(token_active(b)),
        eb,
        "\"} "@,
    );
    assert(ea.take(ea.len() - "\n"@.len()) =~= value_a);
    assert(eb.take(eb.len() - "\n"@.len()) =~= value_b);
}

/// A text that is put together holds a character exactly where one of its parts does.
proof fn lemma_contains_in_parts(a: Seq<char>, b: Seq<char>, c: char)
    ensures
        (a + b).contains(c) <==> a.contains(c) || b.contains(c),
{
    let all = a + b;
    if a.contains(c) {
        let i = choose|i: int| 0 <= i < a.len() && a[i] == c;
        assert(all[i] == c);
    }
    if b.contains(c) {
        let i = choose|i: int| 0 <= i < b.len() && b[i] == c;
        assert(all[a.len() + i] == c);
    }
}

/// The fixed texts of a metric line hold no line break.
proof fn lemma_fixed_texts_without_break()
    ensures
        !"gitlab_token_expiration{token_type=\""@.contains('\n'),
        !"\",full_path=\""@.contains('\n'),
        !"\",token_name=\""@.contains('\n'),
        !"\",active=\""@.contains('\n'),
        !"\"} "@.contains('\n'),
        !"NaN"@.contains('\n'),
        !"group"@.contains('\n'),
        !"project"@.contains('\n'),
        !"user"@.contains('\n'),
        !"true"@.contains('\n'),
        !"false"@.contains('\n'),
{
    reveal_strlit("gitlab_token_expiration{token_type=\"");
    reveal_strlit("\",full_path=\"");
    reveal_strlit("\",token_name=\"");
    reveal_strlit("\",active=\"");
    reveal_strlit("\"} ");
    reveal_strlit("NaN");
    reveal_strlit("group");
    reveal_strlit("project");
    reveal_strlit("user");
    reveal_strlit("true");
    reveal_strlit("false");
    assert("gitlab_token_expiration{token_type=\""@ =~= seq!['g', 'i', 't', 'l', 'a', 'b', '_', 't', 'o', 'k', 'e', 'n', '_', 'e', 'x', 'p', 'i', 'r', 'a', 't', 'i', 'o', 'n', '{', 't', 'o', 'k', 'e', 'n', '_', 't', 'y', 'p', 'e', '=', '"']);
    assert("\",full_path=\""@ =~= seq!['"', ',', 'f', 'u', 'l', 'l', '_', 'p', 'a', 't', 'h', '=', '"']);
    assert("\",token_name=\""@ =~= seq!['"', ',', 't', 'o', 'k', 'e', 'n', '_', 'n', 'a', 'm', 'e', '=', '"']);
    assert("\",active=\""@ =~= seq!['"', ',', 'a', 'c', 't', 'i', 'v', 'e', '=', '"']);
    assert("\"} "@ =~= seq!['"', '}', ' ']);
    assert("NaN"@ =~= seq!['N', 'a', 'N']);
    assert("group"@ =~= seq!['g', 'r', 'o', 'u', 'p']);
    assert("project"@ =~= seq!['p', 'r', 'o', 'j', 'e', 'c', 't']);
    assert("user"@ =~= seq!['u', 's', 'e', 'r']);
    assert("true"@ =~= seq!['t', 'r', 'u', 'e']);
    assert("false"@ =~= seq!['f', 'a', 'l', 's', 'e']);
}

/// The value of the metric holds no line break.
proof fn lemma_value_without_break(expires_at: Option<Date>, today: crate::date::CalendarDay)
    ensures
        !metric_value(expires_at, today).contains('\n'),
{
    lemma_fixed_texts_without_break();
    if let Some(expiry) = expires_at {
        let days = crate::date::days_from(today, expiry@);
        let magnitude = if days < 0 {
            -days
        } else {
            days
        };
        let digits = crate::text::decimal(magnitude as nat);
        crate::text::law_decimal_spells_number(magnitude as nat);
        assert(!digits.contains('\n')) by {
            if digits.contains('\n') {
                let i = choose|i: int| 0 <= i < digits.len() && digits[i] == '\n';
                assert(crate::text::is_digit(digits[i]));
            }
        }
        lemma_contains_in_parts(seq!['-'], digits, '\n');
    }
}

/// The metric of a token is one line: its only line break is at its end, as long as the full
/// path and the name of the token hold none.
pub proof fn law_metric_is_one_line(token: Token, today: crate::date::CalendarDay)
    requires
        !token_full_path(token).contains('\n'),
        !token_name(token).contains('\n'),
    ensures
        metric_line(token, today).last() == '\n',
        !metric_line(token, today).drop_last().contains('\n'),
{
    reveal_strlit("\n");
    lemma_fixed_texts_without_break();
    lemma_value_without_break(token_expires_at(token), today);
    let value = metric_value(token_expires_at(token), today);
    let intro = "gitlab_token_expiration{token_type=\""@;
    let parts = seq![
        token_type(token),
        "\",full_path=\""@,
        token_full_path(token),
        "\",token_name=\""@,
        token_name(token),
        "\",active=\""@,
        bool_text(token_active(token)),
        "\"} "@,
        value,
    ];
    let head1 = intro + parts[0];
    let head2 = head1 + parts[1];
    let head3 = head2 + parts[2];
    let head4 = head3 + parts[3];
    let head5 = head4 + parts[4];
    let head6 = head5 + parts[5];
    let head7 = head6 + parts[6];
    let head8 = head7 + parts[7];
    lemma_contains_in_parts(intro, parts[0], '\n');
    lemma_contains_in_parts(head1, parts[1], '\n');
    lemma_contains_in_parts(head2, parts[2], '\n');
    lemma_contains_in_parts(head3, parts[3], '\n');
    lemma_contains_in_parts(head4, parts[4], '\n');
    lemma_contains_in_parts(head5, parts[5], '\n');
    lemma_contains_in_parts(head6, parts[6], '\n');
    lemma_contains_in_parts(head7, parts[7], '\n');
    lemma_contains_in_parts(head8, parts[8], '\n');
    assert(metric_line(token, today).drop_last() =~= head8 + parts[8]);
}

/// The line of a token is written from the token itself: its kind, its own full path and name,
/// `true` exactly where it is active, and the days from today to the day on which it expires, or
/// `NaN` where it has no such day.
pub proof fn law_line_written_from_the_token(token: Token, today: crate::date::CalendarDay)
    ensures
        metric_line(token, today) == "gitlab_token_expiration{token_type=\""@ + (match token {
            Token::Group { .. } => "group"@,
            Token::Project { .. } => "project"@,
            Token::User { .. } => "user"@,
        }) + "\",full_path=\""@ + (match token {
            Token::Group { full_path, .. } => full_path@,
            Token::Project { full_path, .. } => full_path@,
            Token::User { full_path, .. } => full_path@,
        }) + "\",token_name=\""@ + (match token {
            Token::Group { token, .. } => token.name@,
            Token::Project { token, .. } => token.name@,
            Token::User { token, .. } => token.name@,
        }) + "\",active=\""@ + (if match token {
            Token::Group { token, .. } => token.active,
            Token::Project { token, .. } => token.active,
            Token::User { token, .. } => token.active,
        } {
            "true"@
        } else {
            "false"@
        }) + "\"} "@ + (match (match token {
            Token::Group { token, .. } => token.expires_at,
            Token::Project { token, .. } => token.expires_at,
            Token::User { token, .. } => token.expires_at,
        }) {
            Some(expiry) => crate::text::signed_decimal(expiry@.number() - today.number()),
            None => "NaN"@,
        }) + "\n"@,
{
}

/// A line tells whether its token is active, and of which kind it is: two tokens with the same
/// line are of the same kind, have the same full path and name, and are both active or both not,
/// as long as no path or name holds a quote.
pub proof fn law_line_tells_activity_and_kind(
    a: Token,
    day_a: crate::date::CalendarDay,
    b: Token,
    day_b: crate::date::CalendarDay,
)
    requires
        !token_full_path(a).contains('"'),
        !token_name(a).contains('"'),
        !token_full_path(b).contains('"'),
        !token_name(b).contains('"'),
        metric_line(a, day_a) == metric_line(b, day_b),
    ensures
        (match a {
            Token::Group { token, .. } => token.active,
            Token::Project { token, .. } => token.active,
            Token::User { token, .. } => token.active,
        }) == (match b {
            Token::Group { token, .. } => token.active,
            Token::Project { token, .. } => token.active,
            Token::User { token, .. } => token.active,
        }),
        (match a {
            Token::Group { token, .. } => token.name@,
            Token::Project { token, .. } => token.name@,
            Token::User { token, .. } => token.name@,
        }) == (match b {
            Token::Group { token, .. } => token.name@,
            Token::Project { token, .. } => token.name@,
            Token::User { token, .. } => token.name@,
        }),
        (match a {
            Token::Group { full_path, .. } => full_path@,
            Token::Project { full_path, .. } => full_path@,
            Token::User { full_path, .. } => full_path@,
        }) == (match b {
            Token::Group { full_path, .. } => full_path@,
            Token::Project { full_path, .. } => full_path@,
            Token::User { full_path, .. } => full_path@,
        }),
        a is Group <==> b is Group,
        a is Project <==> b is Project,
        a is User <==> b is User,
{
    law_line_tells_labels_and_value(a, day_a, b, day_b);
    reveal_strlit("group");
    reveal_strlit("project");
    reveal_strlit("user");
    assert("group"@.len() == 5 && "project"@.len() == 7 && "user"@.len() == 4);
}

/// The line of a group or project token does not depend on its access level, id, scopes or
/// revocation, nor on the URL of the group or project.
pub proof fn law_access_token_line_ignores_the_rest(
    x: crate::gitlab::token::AccessToken,
    y: crate::gitlab::token::AccessToken,
    full_path: String,
    url_x: String,
    url_y: String,
    today: crate::date::CalendarDay,
)
    requires
        x.name@ == y.name@,
        x.active == y.active,
        x.expires_at == y.expires_at,
    ensures
        metric_line(Token::Group { token: x, full_path, web_url: url_x }, today) == metric_line(
            Token::Group { token: y, full_path, web_url: url_y },
            today,
        ),
        metric_line(Token::Project { token: x, full_path, web_url: url_x }, today) == metric_line(
            Token::Project { token: y, full_path, web_url: url_y },
            today,
        ),
{
}

/// The line of a user token does not depend on its scopes, its revocation or the id of its user.
pub proof fn law_personal_token_line_ignores_the_rest(
    x: crate::gitlab::token::PersonalAccessToken,
    y: crate::gitlab::token::PersonalAccessToken,
    full_path: String,
    today: crate::date::CalendarDay,
)
    requires
        x.name@ == y.name@,
        x.active == y.active,
        x.expires_at == y.expires_at,
    ensures
        metric_line(Token::User { token: x, full_path }, today) == metric_line(
            Token::User { token: y, full_path },
            today,
        ),
{
}

} // verus!
