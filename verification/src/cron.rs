//! Cron scheduling: the repeat interval of a schedule, the next run time,
//! and the user message and model a scheduled run starts with.

use vstd::prelude::*;
use vstd::string::{StrSliceExecFns, StringExecFns};
use crate::dates::{
    civil_of, days_from_civil, days_before_year, days_before_month, days_in_month, is_leap,
    valid_date, iso_seconds, lemma_year_length, spec_rfc3339_from_millis,
};
use crate::json::{Json, JsonV, spec_get, opt_str};
use crate::text::{
    chars_of, has_prefix, matches_at, padded, parse_u64, parse_u64_chars, push_char, push_padded,
    replace_all, signed_decimal, split_whitespace, str_replace, str_trim, trim, words, i64_to_string,
    contains_seq, str_contains, slice_chars, opt_string,
};

verus! {

/// The repeat interval, in seconds, of the step `*/N` (`N` times `unit`).
pub open spec fn step_interval(field: Seq<char>, unit: int) -> Option<int> {
    if has_prefix(field, "*/"@) {
        match parse_u64(field.skip(2)) {
            Some(n) => Some(n * unit),
            None => None,
        }
    } else {
        None
    }
}

/// The repeat interval of a five-field cron schedule in seconds, 0 when it
/// is not one of the simple forms: `*/N * * * *`, `* * * * *`,
/// `0 */N * * *`, `0 * * * *`, `0 0 * * *`.
pub open spec fn spec_cron_interval(schedule: Seq<char>) -> int {
    let parts = words(schedule);
    if parts.len() != 5 {
        0
    } else {
        let minute = parts[0];
        let hour = parts[1];
        if step_interval(minute, 60) is Some {
            step_interval(minute, 60)->0
        } else if minute == "*"@ && hour == "*"@ {
            60
        } else if minute == "0"@ {
            if step_interval(hour, 3600) is Some {
                step_interval(hour, 3600)->0
            } else if hour == "*"@ {
                3600
            } else if hour == "0"@ {
                86400
            } else {
                0
            }
        } else {
            0
        }
    }
}

/// The value of a `*/N` step field.
fn step_value(field: &Vec<char>) -> (res: Option<u64>)
    ensures
        match res {
            Some(n) => has_prefix(field@, "*/"@) && parse_u64(field@.skip(2)) == Some(n),
            None => !(has_prefix(field@, "*/"@) && parse_u64(field@.skip(2)) is Some),
        },
{
    let prefix = chars_of("*/");
    proof {
        reveal_strlit("*/");
    }
    if field.len() < 2 || !matches_at(field, &prefix, 0) {
        return None;
    }
    let rest = slice_chars(field, 2, field.len());
    assert(rest@ =~= field@.skip(2));
    parse_u64_chars(&rest)
}

/// Whether a field is exactly `text`.
fn field_is(field: &Vec<char>, text: &str) -> (res: bool)
    ensures
        res == (field@ == text@),
{
    let t = chars_of(text);
    if t.len() != field.len() {
        return false;
    }
    let r = matches_at(field, &t, 0);
    assert(field@.subrange(0, t@.len() as int) =~= field@);
    r
}

/// Simple cron interval parser: the repeat interval in seconds, 0 when the
/// expression is not one of the simple forms.
pub fn parse_cron_interval(schedule: &str) -> (res: u64)
    requires
        spec_cron_interval(schedule@) <= u64::MAX,
    ensures
        res == spec_cron_interval(schedule@),
{
    proof {
        reveal_strlit("*");
        reveal_strlit("0");
    }
    let parts = split_whitespace(schedule);
    assert(parts@.len() == words(schedule@).len());
    if parts.len() != 5 {
        return 0;
    }
    let minute = &parts[0];
    let hour = &parts[1];
    assert(minute@ == words(schedule@)[0]);
    assert(hour@ == words(schedule@)[1]);
    if let Some(n) = step_value(minute) {
        return n * 60;
    }
    if field_is(minute, "*") && field_is(hour, "*") {
        return 60;
    }
    if field_is(minute, "0") {
        if let Some(n) = step_value(hour) {
            return n * 3600;
        }
        if field_is(hour, "*") {
            return 3600;
        }
        if field_is(hour, "0") {
            return 86400;
        }
    }
    0
}

/// Whether `year` is a leap year.
pub fn is_leap_year(year: i64) -> (res: bool)
    ensures
        res == is_leap(year as int),
{
    (year % 4 == 0 && year % 100 != 0) || (year % 400 == 0)
}

/// ISO-8601 UTC text (`YYYY-MM-DDThh:mm:ssZ`) for seconds since the epoch.
pub open spec fn spec_unix_to_iso8601(secs: int) -> Seq<char> {
    let day = civil_of(secs / 86400);
    let sod = secs % 86400;
    iso_seconds(day.0, day.1, day.2, sod / 3600, (sod % 3600) / 60, sod % 60) + "Z"@
}

/// The number of days in month `m` of a year, by whether the year is leap.
fn month_days(leap: bool, m: i64) -> (res: i64)
    requires
        1 <= m <= 12,
    ensures
        forall|y: int| is_leap(y) == leap ==> res == days_in_month(y, m as int),
{
    if m == 2 {
        if leap { 29 } else { 28 }
    } else if m == 4 || m == 6 || m == 9 || m == 11 {
        30
    } else {
        31
    }
}

/// A date's month offsets add up month by month.
proof fn lemma_next_month(y: int, m: int)
    requires
        1 <= m < 12,
    ensures
        days_before_month(y, m + 1) == days_before_month(y, m) + days_in_month(y, m),
{
}

/// Convert unix seconds to an ISO 8601 UTC string.
pub fn unix_to_iso8601(secs: u64) -> (res: String)
    ensures
        res@ == spec_unix_to_iso8601(secs as int),
{
    let total: i64 = (secs / 86400) as i64;
    let mut days: i64 = total;
    let day_secs: u64 = secs % 86400;
    let hour: u64 = day_secs / 3600;
    let minute: u64 = (day_secs % 3600) / 60;
    let second: u64 = day_secs % 60;
    let mut year: i64 = 1970;
    loop
        invariant
            0 <= days <= total,
            total == secs / 86400,
            1970 <= year <= 1970 + (total - days),
            days == total - days_before_year(year as int),
        ensures
            0 <= days <= total,
            1970 <= year,
            days == total - days_before_year(year as int),
            days < days_before_year(year + 1) - days_before_year(year as int),
        decreases days,
    {
        proof {
            lemma_year_length(year as int);
        }
        let ydays: i64 = if is_leap_year(year) { 366 } else { 365 };
        if days < ydays {
            break;
        }
        days -= ydays;
        year += 1;
    }
    proof {
        lemma_year_length(year as int);
    }
    let leap = is_leap_year(year);
    let mut month: i64 = 1;
    loop
        invariant
            1 <= month <= 12,
            leap == is_leap(year as int),
            0 <= days,
            days + days_before_month(year as int, month as int) == total - days_before_year(year as int),
            total - days_before_year(year as int) < days_before_year(year + 1) - days_before_year(year as int),
        ensures
            1 <= month <= 12,
            0 <= days < days_in_month(year as int, month as int),
            days + days_before_month(year as int, month as int) == total - days_before_year(year as int),
        decreases 12 - month,
    {
        let md = month_days(leap, month);
        if days < md {
            break;
        }
        proof {
            if month == 12 {
                lemma_year_length(year as int);
                assert(false);
            }
            lemma_next_month(year as int, month as int);
        }
        days -= md;
        month += 1;
    }
    proof {
        assert(valid_date(year as int, month as int, days + 1));
        assert(days_from_civil(year as int, month as int, days + 1) == total);
        crate::dates::lemma_civil_of(total as int, year as int, month as int, days + 1);
        crate::dates::lemma_year_after_epoch(year as int, month as int, days + 1);
    }
    let mut out = String::new();
    push_padded(&mut out, year as u64, 4);
    push_char(&mut out, '-');
    push_padded(&mut out, month as u64, 2);
    push_char(&mut out, '-');
    push_padded(&mut out, (days + 1) as u64, 2);
    push_char(&mut out, 'T');
    push_padded(&mut out, hour, 2);
    push_char(&mut out, ':');
    push_padded(&mut out, minute, 2);
    push_char(&mut out, ':');
    push_padded(&mut out, second, 2);
    push_char(&mut out, 'Z');
    proof {
        reveal_strlit("-");
        reveal_strlit("T");
        reveal_strlit(":");
        reveal_strlit("Z");
    }
    assert(out@ =~= spec_unix_to_iso8601(secs as int));
    out
}

/// The two timestamp writers agree: for a non-negative instant, the RFC-3339
/// text of its milliseconds is the ISO-8601 text of its whole seconds with the
/// milliseconds inserted before the `Z`.
pub proof fn law_timestamp_writers_agree(millis: int)
    requires
        millis >= 0,
    ensures
        spec_rfc3339_from_millis(millis) == spec_unix_to_iso8601(millis / 1000).drop_last() + "."@
            + padded((millis % 1000) as nat, 3) + "Z"@,
{
    let secs = millis / 1000;
    let day = civil_of(secs / 86400);
    let sod = secs % 86400;
    let prefix = iso_seconds(day.0, day.1, day.2, sod / 3600, (sod % 3600) / 60, sod % 60);
    reveal_strlit("Z");
    assert((prefix + "Z"@).drop_last() =~= prefix);
}

/// A string result as plain values.
pub open spec fn result_text(r: Result<String, String>) -> Result<Seq<char>, Seq<char>> {
    match r {
        Ok(s) => Ok(s@),
        Err(e) => Err(e@),
    }
}

/// The message shown when a cron job has no user message to send.
pub open spec fn empty_message_error() -> Seq<char> {
    "CronJob user message is empty; configure user_message_template or user_message"@
}

/// The user message of a scheduled run: the template when it is not blank,
/// otherwise the existing message, with `{{run_count}}`, `{{last_result}}`
/// and `{{now}}` substituted; refused when the result is blank.
pub open spec fn spec_render_user_message(
    template: Seq<char>,
    existing: Seq<char>,
    run_count: int,
    last_result: Seq<char>,
    now: Seq<char>,
) -> Result<Seq<char>, Seq<char>> {
    let source = if trim(template).len() > 0 { template } else { existing };
    let rendered = replace_all(
        replace_all(replace_all(source, "{{run_count}}"@, signed_decimal(run_count)), "{{last_result}}"@, last_result),
        "{{now}}"@,
        now,
    );
    if trim(rendered).len() == 0 {
        Err(empty_message_error())
    } else {
        Ok(rendered)
    }
}

/// Render the user message of a scheduled run.
pub fn render_user_message(
    template: &str,
    existing_user_message: &str,
    run_count: i64,
    last_result: &str,
    now: &str,
) -> (res: Result<String, String>)
    ensures
        result_text(res) == spec_render_user_message(
            template@,
            existing_user_message@,
            run_count as int,
            last_result@,
            now@,
        ),
{
    proof {
        reveal_strlit("{{run_count}}");
        reveal_strlit("{{last_result}}");
        reveal_strlit("{{now}}");
    }
    let trimmed = str_trim(template);
    let source = if trimmed.as_str().unicode_len() > 0 { template } else { existing_user_message };
    let count = i64_to_string(run_count);
    let step1 = str_replace(source, "{{run_count}}", count.as_str());
    let step2 = str_replace(step1.as_str(), "{{last_result}}", last_result);
    let rendered = str_replace(step2.as_str(), "{{now}}", now);
    let check = str_trim(rendered.as_str());
    if check.as_str().unicode_len() == 0 {
        return Err(String::from_str(
            "CronJob user message is empty; configure user_message_template or user_message",
        ));
    }
    Ok(rendered)
}

/// A field value as a usable setting: trimmed, non-empty and, when secrets
/// are rejected, not an unresolved `{secret:...}` template.
pub open spec fn usable_text(v: Option<Seq<char>>, reject_secrets: bool) -> Option<Seq<char>> {
    match v {
        Some(s) => {
            let t = trim(s);
            if t.len() > 0 && !(reject_secrets && contains_seq(t, "{secret:"@)) {
                Some(t)
            } else {
                None
            }
        },
        None => None,
    }
}

/// The first of `keys` whose string value is a usable setting, trimmed.
pub open spec fn first_usable(value: JsonV, keys: Seq<&str>, reject_secrets: bool) -> Option<Seq<char>>
    decreases keys.len(),
{
    if keys.len() == 0 {
        None
    } else {
        match usable_text(opt_str(spec_get(value, keys[0]@)), reject_secrets) {
            Some(t) => Some(t),
            None => first_usable(value, keys.drop_first(), reject_secrets),
        }
    }
}


/// The first usable setting among `keys`.
fn first_usable_field(value: &Json, keys: &[&str], reject_secrets: bool) -> (res: Option<String>)
    ensures
        opt_string(res) == first_usable(value@, keys@, reject_secrets),
{
    proof {
        reveal_strlit("{secret:");
    }
    let mut i: usize = 0;
    assert(keys@.skip(0) =~= keys@);
    while i < keys.len()
        invariant
            i <= keys@.len(),
            first_usable(value@, keys@, reject_secrets) == first_usable(value@, keys@.skip(i as int), reject_secrets),
        decreases keys@.len() - i,
    {
        assert(keys@.skip(i as int).drop_first() =~= keys@.skip(i + 1));
        assert(keys@.skip(i as int)[0] == keys@[i as int]);
        if let Some(raw) = value.get_str(keys[i]) {
            let t = str_trim(raw);
            if t.as_str().unicode_len() > 0 && !(reject_secrets && str_contains(t.as_str(), "{secret:")) {
                return Some(t);
            }
        }
        i += 1;
    }
    None
}

/// The first of `keys` holding a non-blank string, trimmed; templates kept.
pub fn string_field_preserve_templates(value: &Json, keys: &[&str]) -> (res: Option<String>)
    ensures
        opt_string(res) == first_usable(value@, keys@, false),
{
    first_usable_field(value, keys, false)
}

/// The first of `keys` holding a non-blank string that is not an unresolved
/// secret template, trimmed.
pub fn string_field(value: &Json, keys: &[&str]) -> (res: Option<String>)
    ensures
        opt_string(res) == first_usable(value@, keys@, true),
{
    first_usable_field(value, keys, true)
}

/// The template and the existing user message of a cron job, each empty when unset.
pub fn cron_message_sources(fields: &Json) -> (res: (String, String))
    ensures
        res.0@ == match first_usable(fields@, seq!["user_message_template", "UserMessageTemplate"], false) {
            Some(t) => t,
            None => seq![],
        },
        res.1@ == match first_usable(fields@, seq!["user_message", "UserMessage"], false) {
            Some(t) => t,
            None => seq![],
        },
{
    let template_keys: [&str; 2] = ["user_message_template", "UserMessageTemplate"];
    let message_keys: [&str; 2] = ["user_message", "UserMessage"];
    assert(template_keys@ == seq!["user_message_template", "UserMessageTemplate"]);
    assert(message_keys@ == seq!["user_message", "UserMessage"]);
    let template = match string_field_preserve_templates(fields, &template_keys) {
        Some(t) => t,
        None => String::new(),
    };
    let message = match string_field_preserve_templates(fields, &message_keys) {
        Some(t) => t,
        None => String::new(),
    };
    (template, message)
}

/// The model and provider a scheduled run uses.
#[derive(Debug)]
pub struct CronSessionConfig {
    pub model: String,
    pub provider: String,
}

/// The model of a cron job: its own, else the tenant default.
pub open spec fn spec_cron_model(fields: JsonV, config: JsonV) -> Option<Seq<char>> {
    match first_usable(fields, seq!["model", "Model"], true) {
        Some(t) => Some(t),
        None => first_usable(config, seq!["default_llm_model"], true),
    }
}

/// The provider of a cron job: its own, else the tenant default.
pub open spec fn spec_cron_provider(fields: JsonV, config: JsonV) -> Option<Seq<char>> {
    match first_usable(fields, seq!["provider", "Provider"], true) {
        Some(t) => Some(t),
        None => first_usable(config, seq!["default_llm_provider"], true),
    }
}

/// Resolve the model and provider of a cron job, or say which one is missing.
pub fn resolve_cron_session_config(fields: &Json, config: &Json) -> (res: Result<CronSessionConfig, String>)
    ensures
        match (spec_cron_model(fields@, config@), spec_cron_provider(fields@, config@)) {
            (Some(m), Some(p)) => res matches Ok(c) && c.model@ == m && c.provider@ == p,
            (None, _) => res matches Err(e)
                && e@ == "CronJob model is empty; configure model or tenant llm_model"@,
            (Some(_), None) => res matches Err(e)
                && e@ == "CronJob provider is empty; configure provider or tenant llm_provider"@,
        },
{
    let model_keys: [&str; 2] = ["model", "Model"];
    let model_default: [&str; 1] = ["default_llm_model"];
    let provider_keys: [&str; 2] = ["provider", "Provider"];
    let provider_default: [&str; 1] = ["default_llm_provider"];
    assert(model_keys@ == seq!["model", "Model"]);
    assert(model_default@ == seq!["default_llm_model"]);
    assert(provider_keys@ == seq!["provider", "Provider"]);
    assert(provider_default@ == seq!["default_llm_provider"]);
    let model = match string_field(fields, &model_keys) {
        Some(m) => m,
        None => match string_field(config, &model_default) {
            Some(m) => m,
            None => {
                return Err(String::from_str("CronJob model is empty; configure model or tenant llm_model"));
            },
        },
    };
    let provider = match string_field(fields, &provider_keys) {
        Some(p) => p,
        None => match string_field(config, &provider_default) {
            Some(p) => p,
            None => {
                return Err(String::from_str(
                    "CronJob provider is empty; configure provider or tenant llm_provider",
                ));
            },
        },
    };
    Ok(CronSessionConfig { model, provider })
}

} // verus!
