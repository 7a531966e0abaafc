use minis::offload::args::{is_truthy_lowercase, OffloadArgs};
use minis::offload::handlers::{
    alarm_plan, calendar_plan, contacts_plan, device_plan, location_plan, notification_plan,
    parse_duration, photos_plan, suffixed_duration, shizuku_plan, speak_plan, speech_plan, weather_failure, weather_plan,
    Plan,
};
use minis::offload::result::{JniReply, OffloadGate, OffloadResult, PermissionState};
use minis::params::{ParamValue, Params};

fn params(entries: &[(&str, ParamValue)]) -> Params {
    Params { entries: entries.iter().map(|(k, v)| (k.to_string(), v.clone())).collect() }
}

fn s(v: &str) -> ParamValue {
    ParamValue::Str(v.to_string())
}

fn rejected(p: Plan) -> OffloadResult {
    match p {
        Plan::Reply(r) => r,
        other => panic!("expected a reply, got {:?}", other),
    }
}

fn called(p: Plan) -> String {
    match p {
        Plan::Call(sub) => sub,
        other => panic!("expected a call, got {:?}", other),
    }
}

#[test]
fn test_parse_flags() {
    let args = OffloadArgs::from_argv(&["--today".into(), "list".into()], &["today", "all-day"]);
    assert!(args.has_flag("today"));
    assert_eq!(args.positional, vec!["list"]);
}

#[test]
fn test_parse_key_value() {
    let args = OffloadArgs::from_argv(&["--title".into(), "Meeting".into(), "create".into()], &[]);
    assert_eq!(args.get("title"), Some("Meeting"));
    assert_eq!(args.positional, vec!["create"]);
}

#[test]
fn test_parse_key_equals_value() {
    let args = OffloadArgs::from_argv(&["--max=10".into(), "list".into()], &[]);
    assert_eq!(args.get_int("max"), Some(10));
}

#[test]
fn test_offload_args_parse() {
    let args = OffloadArgs::from_argv(&["--today".into(), "list".into()], &["today"]);
    assert!(args.has_flag("today"));
    assert_eq!(args.positional, vec!["list"]);
}

#[test]
fn test_parse_short_flags_and_last_value_wins() {
    let args = OffloadArgs::from_argv(
        &["-v".into(), "--n".into(), "1".into(), "--n=2".into(), "--last".into(), "-".into()],
        &[],
    );
    assert!(args.has_flag("v"));
    assert!(args.has_flag("last"));
    assert_eq!(args.get_int("n"), Some(2));
    assert_eq!(args.positional, vec!["-"]);
    assert_eq!(args.get_bool("n"), Some(false));
    let yes = OffloadArgs::from_argv(&["--on=YES".into()], &[]);
    assert_eq!(yes.get_bool("on"), Some(true));
    assert_eq!(yes.get_bool("off"), None);
}

#[test]
fn test_calendar_no_jni_returns_data_with_error() {
    let plan = calendar_plan(&params(&[("subcommand", s("list"))]));
    assert_eq!(called(plan), "list");
    let reply = JniReply {
        data: serde_json::Value::Null,
        error: Some(s("jni_callback not configured")),
    };
    let result = OffloadResult::from_reply(reply);
    assert!(!result.success);
    assert_eq!(result.exit_code, 1);
    assert_eq!(result.error.as_deref(), Some("jni_callback not configured"));
}

#[test]
fn test_calendar_missing_title() {
    let result = rejected(calendar_plan(&params(&[("subcommand", s("create")), ("start", s("2024-01-01T10:00"))])));
    assert!(!result.success);
    assert_eq!(result.exit_code, 2);
    assert!(result.error.unwrap().contains("title"));
}

#[test]
fn test_calendar_missing_start() {
    let result = rejected(calendar_plan(&params(&[("subcommand", s("create")), ("title", s("Meeting"))])));
    assert!(!result.success);
    assert!(result.error.unwrap().contains("start"));
}

#[test]
fn test_calendar_unknown_subcommand() {
    let result = rejected(calendar_plan(&params(&[("subcommand", s("frobnicate"))])));
    assert!(!result.success);
    assert!(result.error.unwrap().contains("unknown"));
}

#[test]
fn test_calendar_defaults_and_ids() {
    assert_eq!(called(calendar_plan(&params(&[]))), "list");
    let r = rejected(calendar_plan(&params(&[("subcommand", s("delete"))])));
    assert_eq!(r.error.as_deref(), Some("delete: --id is required"));
    assert_eq!(called(calendar_plan(&params(&[("subcommand", s("update")), ("id", s("7"))]))), "update");
}

#[test]
fn test_contacts_missing_query() {
    let result = rejected(contacts_plan(&params(&[("subcommand", s("search"))])));
    assert!(!result.success);
    assert!(result.error.unwrap().contains("query"));
}

#[test]
fn test_alarm_missing_time() {
    let result = rejected(alarm_plan(&params(&[("subcommand", s("set"))])));
    assert!(!result.success);
    assert!(result.error.unwrap().contains("time"));
}

#[test]
fn test_alarm_invalid_duration() {
    let result = rejected(alarm_plan(&params(&[("subcommand", s("timer")), ("duration", s("abc"))])));
    assert!(!result.success);
    assert!(result.error.unwrap().contains("duration"));
}

#[test]
fn test_alarm_without_subcommand() {
    let r = rejected(alarm_plan(&params(&[])));
    assert_eq!(r.error.as_deref(), Some("no subcommand specified"));
    assert_eq!(called(alarm_plan(&params(&[("subcommand", s("timer")), ("duration", s("5M"))]))), "timer");
}

#[test]
fn test_parse_duration_forms() {
    assert_eq!(parse_duration("90"), Some(90));
    assert_eq!(parse_duration("+7"), Some(7));
    assert_eq!(parse_duration("5m"), Some(300));
    assert_eq!(parse_duration("2H"), Some(7200));
    assert_eq!(parse_duration("30s"), Some(30));
    assert_eq!(parse_duration(""), None);
    assert_eq!(parse_duration("m"), None);
    assert_eq!(parse_duration("-5"), None);
    assert_eq!(parse_duration("18446744073709551615m"), Some(18446744073709551615u128 * 60));
    assert_eq!(parse_duration("18446744073709551616"), None);
}

#[test]
fn test_location_missing_coords() {
    let result = rejected(location_plan(&params(&[("subcommand", s("geocode"))]), true));
    assert!(!result.success);
    assert!(result.error.unwrap().contains("lat"));
}

#[test]
fn test_location_lat_out_of_range() {
    let args = params(&[("subcommand", s("geocode")), ("lat", ParamValue::Num), ("lon", ParamValue::Int(0))]);
    let result = rejected(location_plan(&args, false));
    assert!(!result.success);
    assert!(result.error.unwrap().contains("range"));
}

#[test]
fn test_location_lng_fallback() {
    let args = params(&[("subcommand", s("geocode")), ("lat", ParamValue::Int(10)), ("lng", ParamValue::Num)]);
    assert_eq!(called(location_plan(&args, true)), "geocode");
    let bad = params(&[("subcommand", s("geocode")), ("lat", ParamValue::Int(10)), ("lon", s("x")), ("lng", ParamValue::Num)]);
    assert!(rejected(location_plan(&bad, true)).error.unwrap().contains("--lat and --lon"));
}

#[test]
fn test_weather_missing_coords() {
    let result = rejected(weather_plan(&params(&[("subcommand", s("current"))]), true, true));
    assert!(!result.success);
    assert!(result.error.unwrap().contains("lat"));
}

#[test]
fn test_weather_lat_out_of_range() {
    let args = params(&[("subcommand", s("current")), ("lat", ParamValue::Num), ("lon", ParamValue::Num)]);
    let result = rejected(weather_plan(&args, false, true));
    assert!(!result.success);
    assert!(result.error.unwrap().contains("range"));
}

#[test]
fn test_weather_queries() {
    let base = [("lat", ParamValue::Int(1)), ("lon", ParamValue::Int(2))];
    let mut hourly = base.to_vec();
    hourly.push(("subcommand", s("hourly")));
    hourly.push(("hours", ParamValue::Int(500)));
    match weather_plan(&params(&hourly), true, true) {
        Plan::Fetch(q) => assert!(q.ends_with("forecast_hours=168")),
        other => panic!("unexpected {:?}", other),
    }
    let mut daily = base.to_vec();
    daily.push(("subcommand", s("daily")));
    match weather_plan(&params(&daily), true, true) {
        Plan::Fetch(q) => assert!(q.ends_with("forecast_days=7")),
        other => panic!("unexpected {:?}", other),
    }
    let r = rejected(weather_plan(&params(&base), true, false));
    assert_eq!(r.error.as_deref(), Some("longitude out of range (-180..180)"));
    let f = weather_failure("timeout");
    assert_eq!(f.error.as_deref(), Some("weather API error: timeout"));
    assert_eq!(f.exit_code, 1);
}

#[test]
fn test_speak_missing_text() {
    let result = rejected(speak_plan(&params(&[]), true));
    assert!(!result.success);
    assert!(result.error.unwrap().contains("text"));
}

#[test]
fn test_speak_stop_and_bridge() {
    assert_eq!(called(speak_plan(&params(&[("stop", ParamValue::Bool(true))]), true)), "stop");
    assert_eq!(called(speak_plan(&params(&[("text", s("hi"))]), true)), "speak");
    let r = rejected(speak_plan(&params(&[("text", s("hi"))]), false));
    assert_eq!(r.exit_code, 1);
    assert_eq!(r.error.as_deref(), Some("jni_callback not configured"));
}

#[test]
fn test_other_handlers() {
    assert_eq!(called(device_plan(&params(&[]))), "all");
    assert_eq!(called(speech_plan(&params(&[]), true)), "listen");
    assert_eq!(called(notification_plan(&params(&[]))), "list");
    assert!(rejected(notification_plan(&params(&[("subcommand", s("send"))]))).error.unwrap().contains("title"));
    assert!(rejected(photos_plan(&params(&[("subcommand", s("near")), ("lat", ParamValue::Num)]))).error.unwrap().contains("--lon"));
    assert_eq!(rejected(shizuku_plan(&params(&[]), true)).exit_code, 2);
    assert_eq!(called(shizuku_plan(&params(&[("subcommand", s("pm"))]), true)), "pm");
    assert!(rejected(shizuku_plan(&params(&[("subcommand", s("pm"))]), false)).error.unwrap().contains("Shizuku"));
}

#[test]
fn test_gate_allowed() {
    let result = OffloadGate::enforce(PermissionState::Allowed, "android-calendar");
    assert!(result.is_none());
    assert!(OffloadGate::enforce(PermissionState::AskOnce, "android-calendar").is_none());
    let denied = OffloadGate::enforce(PermissionState::NotAllowed, "android-calendar").unwrap();
    assert_eq!(denied.exit_code, 126);
}

#[test]
fn test_offload_result_permission_denied() {
    let result = OffloadResult::permission_denied("android-calendar");
    assert_eq!(result.exit_code, 126);
    assert!(result.error.unwrap().contains("permission_denied"));
}

#[test]
fn test_reply_without_error_is_success() {
    let ok = OffloadResult::from_reply(JniReply { data: serde_json::Value::Bool(true), error: None });
    assert!(ok.success);
    assert_eq!(ok.exit_code, 0);
    assert_eq!(ok.data, serde_json::Value::Bool(true));
    let odd = OffloadResult::from_reply(JniReply { data: serde_json::Value::Null, error: Some(ParamValue::Int(3)) });
    assert!(!odd.success);
    assert_eq!(odd.error, None);
}

#[test]
fn test_args_to_params() {
    let args = OffloadArgs::from_argv(
        &["create".into(), "--title".into(), "Test".into(), "--all-day".into()],
        &["all-day"],
    );
    let p = args.to_params();
    assert_eq!(p.get_str("subcommand").as_deref(), Some("create"));
    assert_eq!(p.get_str("title").as_deref(), Some("Test"));
    assert_eq!(p.get_bool("all-day"), Some(true));
    assert!(!p.has("missing"));
    let both = OffloadArgs::from_argv(&["--x=1".into(), "--x".into(), "list".into(), "--subcommand=z".into()], &["x"]);
    let q = both.to_params();
    assert_eq!(q.get_bool("x"), Some(true));
    assert_eq!(q.get_str("subcommand").as_deref(), Some("z"));
}

#[test]
fn test_lowercased_helpers() {
    assert_eq!(suffixed_duration("10s"), Some(10));
    assert_eq!(suffixed_duration("3h"), Some(10800));
    assert_eq!(suffixed_duration("3H"), None);
    assert_eq!(suffixed_duration("x"), None);
    assert!(is_truthy_lowercase("yes"));
    assert!(is_truthy_lowercase("1"));
    assert!(!is_truthy_lowercase("YES"));
    assert!(!is_truthy_lowercase("no"));
}

#[test]
fn test_positional_words_in_order() {
    let args = OffloadArgs::from_argv(
        &["create".into(), "--title".into(), "Lunch".into(), "today".into(), "-q".into(), "late".into()],
        &[],
    );
    assert_eq!(args.positional(), &vec!["create".to_string(), "today".to_string(), "late".to_string()]);
    assert!(args.has_flag("q"));
    assert_eq!(args.get("title"), Some("Lunch"));
}
