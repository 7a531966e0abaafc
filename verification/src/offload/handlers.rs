//! What each offload handler decides before anything is sent to Android:
//! which subcommand to run, or which arguments to reject and how.
use vstd::prelude::*;
use crate::offload::args::{all_digits, digits_value, is_digit};
use crate::offload::result::{bad_args, fails, OffloadResult};
use crate::params::{bool_or, is_number, lookup, str_param, u64_param, ParamValue, Params};
use crate::text::{
    chars_of, ends_with, extend_chars, extend_str, fmt_u64, lowercase, owned, slice_chars,
    str_eq, string_of, to_lowercase, is_ascii_text, ascii_lower,
};

verus! {

broadcast use vstd::string::group_string_axioms;

/// What a handler does with a request.
#[derive(Debug)]
pub enum Plan {
    /// Answer at once with this result.
    Reply(OffloadResult),
    /// Ask the Android side to run this subcommand.
    Call(String),
    /// Fetch this query from the weather service.
    Fetch(String),
}

/// `p` rejects the request with `m` when `m` is given, else calls `sub`.
pub open spec fn checked_call(p: Plan, err: Option<Seq<char>>, sub: Seq<char>) -> bool {
    match err {
        Some(m) => p matches Plan::Reply(r) && bad_args(r, m),
        None => p matches Plan::Call(s) && s@ == sub,
    }
}

/// `p` calls `sub` when the Android bridge is there, else answers that it
/// is missing with `missing`.
pub open spec fn bridged_call(p: Plan, has_jni: bool, sub: Seq<char>, missing: Seq<char>) -> bool {
    if has_jni {
        p matches Plan::Call(s) && s@ == sub
    } else {
        p matches Plan::Reply(r) && fails(r, missing, 1)
    }
}

/// The `subcommand` argument, or `default`.
pub open spec fn sub_or(es: Seq<(String, ParamValue)>, default: Seq<char>) -> Seq<char> {
    match str_param(es, "subcommand"@) {
        Some(s) => s,
        None => default,
    }
}

/// The rejection of an unknown subcommand.
pub open spec fn unknown_sub(sub: Seq<char>) -> Seq<char> {
    "unknown subcommand '"@ + sub + "'"@
}

/// Whether a longitude is given as a number, under `lon` or, when `lon` is
/// absent, under `lng`.
pub open spec fn has_lon(es: Seq<(String, ParamValue)>) -> bool {
    if lookup(es, "lon"@) is Some {
        is_number(es, "lon"@)
    } else {
        is_number(es, "lng"@)
    }
}

/// The `subcommand` argument, or `default`.
fn subcommand_or(args: &Params, default: &str) -> (s: String)
    ensures
        s@ == sub_or(args.entries@, default@),
{
    match args.get_str("subcommand") {
        Some(s) => s,
        None => owned(default),
    }
}

/// The rejection of an unknown subcommand.
fn unknown_subcommand(sub: &str) -> (r: OffloadResult)
    ensures
        bad_args(r, unknown_sub(sub@)),
{
    let mut m = chars_of("unknown subcommand '");
    extend_str(&mut m, sub);
    extend_str(&mut m, "'");
    let m = string_of(&m);
    OffloadResult::bad_args(m.as_str())
}

/// The rejection `{sub}{rest}`.
fn bad_args_after(sub: &str, rest: &str) -> (r: OffloadResult)
    ensures
        bad_args(r, sub@ + rest@),
{
    let mut m = chars_of(sub);
    extend_str(&mut m, rest);
    let m = string_of(&m);
    OffloadResult::bad_args(m.as_str())
}

/// Whether a longitude is given as a number (`lon`, else `lng`).
fn lon_given(args: &Params) -> (r: bool)
    ensures
        r == has_lon(args.entries@),
{
    if args.has("lon") {
        args.has_number("lon")
    } else {
        args.has_number("lng")
    }
}

/// Answers that the Android bridge is missing, or calls `sub`.
fn bridge(has_jni: bool, sub: String, missing: &str) -> (p: Plan)
    ensures
        bridged_call(p, has_jni, sub@, missing@),
{
    if has_jni {
        Plan::Call(sub)
    } else {
        Plan::Reply(OffloadResult::error(missing, 1))
    }
}

// ---------------------------------------------------------------------------
// calendar
// ---------------------------------------------------------------------------

/// Why the calendar rejects a request, if it does (subcommand `list` by
/// default).
pub open spec fn calendar_error(es: Seq<(String, ParamValue)>) -> Option<Seq<char>> {
    let sub = sub_or(es, "list"@);
    if sub == "list"@ || sub == "calendars"@ || sub == "freebusy"@ {
        None
    } else if sub == "create"@ {
        if str_param(es, "title"@) is None {
            Some("create: --title is required"@)
        } else if str_param(es, "start"@) is None {
            Some("create: --start is required"@)
        } else {
            None
        }
    } else if sub == "update"@ || sub == "delete"@ {
        if str_param(es, "id"@) is None {
            Some(sub + ": --id is required"@)
        } else {
            None
        }
    } else {
        Some(unknown_sub(sub))
    }
}

/// The calendar: list, create, update, delete events, free/busy.
pub fn calendar_plan(args: &Params) -> (p: Plan)
    ensures
        checked_call(p, calendar_error(args.entries@), sub_or(args.entries@, "list"@)),
{
    let sub = subcommand_or(args, "list");
    let s = sub.as_str();
    if str_eq(s, "list") || str_eq(s, "calendars") || str_eq(s, "freebusy") {
        Plan::Call(sub)
    } else if str_eq(s, "create") {
        if args.get_str("title").is_none() {
            Plan::Reply(OffloadResult::bad_args("create: --title is required"))
        } else if args.get_str("start").is_none() {
            Plan::Reply(OffloadResult::bad_args("create: --start is required"))
        } else {
            Plan::Call(sub)
        }
    } else if str_eq(s, "update") || str_eq(s, "delete") {
        if args.get_str("id").is_none() {
            Plan::Reply(bad_args_after(s, ": --id is required"))
        } else {
            Plan::Call(sub)
        }
    } else {
        Plan::Reply(unknown_subcommand(s))
    }
}

// ---------------------------------------------------------------------------
// alarm
// ---------------------------------------------------------------------------

/// The value of a decimal numeral with an optional leading `+`, when it
/// fits in a `u64` (what `str::parse::<u64>` accepts).
pub open spec fn parse_u64(s: Seq<char>) -> Option<nat> {
    let d = if s.len() > 0 && s[0] == '+' { s.skip(1) } else { s };
    if d.len() == 0 || !all_digits(d) || digits_value(d) > u64::MAX {
        None
    } else {
        Some(digits_value(d))
    }
}

/// A duration in seconds: a plain number of seconds, or a number followed
/// by `s`, `m` or `h` (in either case).
pub open spec fn duration_secs(s: Seq<char>) -> Option<nat> {
    if s.len() == 0 {
        None
    } else if parse_u64(s) is Some {
        parse_u64(s)
    } else {
        suffixed_secs(lowercase(s))
    }
}

/// `duration_secs` of an ASCII text, whose lowercase form is known.
pub open spec fn ascii_duration_secs(s: Seq<char>) -> Option<nat> {
    if s.len() == 0 {
        None
    } else if parse_u64(s) is Some {
        parse_u64(s)
    } else {
        suffixed_secs(ascii_lower(s))
    }
}

/// A lowercased duration with a unit: a number followed by `s`, `m` or
/// `h`, in seconds.
pub open spec fn suffixed_secs(l: Seq<char>) -> Option<nat> {
    if ends_with(l, "s"@) {
        parse_u64(l.drop_last())
    } else if ends_with(l, "m"@) {
        match parse_u64(l.drop_last()) {
            Some(n) => Some(n * 60),
            None => None,
        }
    } else if ends_with(l, "h"@) {
        match parse_u64(l.drop_last()) {
            Some(n) => Some(n * 3600),
            None => None,
        }
    } else {
        None
    }
}

/// The value of a decimal digit.
fn digit(c: char) -> (r: u128)
    requires
        is_digit(c),
    ensures
        r == c as u32 - '0' as u32,
{
    (c as u32 - '0' as u32) as u128
}

/// `str::parse::<u64>` on the characters `s`.
pub fn parse_u64_exec(s: &Vec<char>) -> (r: Option<u64>)
    ensures
        match parse_u64(s@) {
            Some(n) => r == Some(n as u64),
            None => r is None,
        },
{
    let start: usize = if s.len() > 0 && s[0] == '+' { 1 } else { 0 };
    let d = slice_chars(s, start, s.len());
    assert(d@ =~= (if s@.len() > 0 && s@[0] == '+' { s@.skip(1) } else { s@ }));
    if d.len() == 0 {
        return None;
    }
    let limit: u128 = 18446744073709551615u128;
    let mut acc: u128 = 0;
    let mut k: usize = 0;
    assert(d@.take(0) =~= Seq::<char>::empty());
    while k < d.len()
        invariant
            k <= d@.len(),
            acc <= limit,
            limit == u64::MAX,
            acc == digits_value(d@.take(k as int)),
            forall|j: int| 0 <= j < k ==> is_digit(#[trigger] d@[j]),
            d@ == (if s@.len() > 0 && s@[0] == '+' { s@.skip(1) } else { s@ }),
        decreases d@.len() - k,
    {
        let c = d[k];
        if !('0' <= c && c <= '9') {
            assert(!all_digits(d@));
            return None;
        }
        assert(d@.take(k + 1).drop_last() =~= d@.take(k as int));
        let next = acc * 10 + digit(c);
        if next > limit {
            proof { lemma_digits_value_prefix(d@, k + 1); }
            return None;
        }
        acc = next;
        k = k + 1;
    }
    assert(d@.take(k as int) =~= d@);
    Some(acc as u64)
}

/// A numeral is worth at least each of its prefixes.
proof fn lemma_digits_value_prefix(d: Seq<char>, k: int)
    requires
        0 <= k <= d.len(),
        all_digits(d.take(k)) || forall|j: int| 0 <= j < d.len() ==> is_digit(#[trigger] d[j]),
    ensures
        all_digits(d) ==> digits_value(d.take(k)) <= digits_value(d),
    decreases d.len(),
{
    if k < d.len() && all_digits(d) {
        assert(d.drop_last().take(k) =~= d.take(k));
        assert(all_digits(d.drop_last()));
        lemma_digits_value_prefix(d.drop_last(), k);
        assert(digits_value(d.drop_last()) <= digits_value(d)) by (nonlinear_arith)
            requires
                digits_value(d) == digits_value(d.drop_last()) * 10 + ((d.last() as u32 - '0' as u32) as nat),
        ;
    } else if k == d.len() {
        assert(d.take(k) =~= d);
    }
}

/// A text ends with `c` when its last character is `c`.
proof fn lemma_ends_with_char(s: Seq<char>, c: char)
    requires
        s.len() > 0,
    ensures
        ends_with(s, seq![c]) <==> s.last() == c,
{
    assert(s.subrange(s.len() - 1, s.len() as int) =~= seq![s.last()]);
    if ends_with(s, seq![c]) {
        assert(s.subrange(s.len() - 1, s.len() as int)[0] == c);
    }
}

/// A duration in seconds (see `duration_secs`); the value is exact, as
/// minutes and hours beyond `u64` seconds still fit.
pub fn parse_duration(s: &str) -> (r: Option<u128>)
    ensures
        match duration_secs(s@) {
            Some(n) => r == Some(n as u128),
            None => r is None,
        },
        is_ascii_text(s@) ==> match ascii_duration_secs(s@) {
            Some(n) => r == Some(n as u128),
            None => r is None,
        },
{
    let v = chars_of(s);
    if v.len() == 0 {
        return None;
    }
    match parse_u64_exec(&v) {
        Some(n) => { return Some(n as u128); },
        None => {},
    }
    suffixed_duration(to_lowercase(s).as_str())
}

/// The seconds of a lowercased duration with a unit (`90s`, `5m`, `2h`).
pub fn suffixed_duration(l: &str) -> (r: Option<u128>)
    ensures
        match suffixed_secs(l@) {
            Some(n) => r == Some(n as u128),
            None => r is None,
        },
{
    let lower = chars_of(l);
    let n = lower.len();
    proof {
        reveal_strlit("s");
        reveal_strlit("m");
        reveal_strlit("h");
        assert("s"@ =~= seq!['s']);
        assert("m"@ =~= seq!['m']);
        assert("h"@ =~= seq!['h']);
        if n > 0 {
            lemma_ends_with_char(lower@, 's');
            lemma_ends_with_char(lower@, 'm');
            lemma_ends_with_char(lower@, 'h');
        }
    }
    if n > 0 && lower[n - 1] == 's' {
        let head = slice_chars(&lower, 0, n - 1);
        assert(head@ =~= lower@.drop_last());
        match parse_u64_exec(&head) {
            Some(k) => Some(k as u128),
            None => None,
        }
    } else if n > 0 && lower[n - 1] == 'm' {
        let head = slice_chars(&lower, 0, n - 1);
        assert(head@ =~= lower@.drop_last());
        match parse_u64_exec(&head) {
            Some(k) => Some(k as u128 * 60),
            None => None,
        }
    } else if n > 0 && lower[n - 1] == 'h' {
        let head = slice_chars(&lower, 0, n - 1);
        assert(head@ =~= lower@.drop_last());
        match parse_u64_exec(&head) {
            Some(k) => Some(k as u128 * 3600),
            None => None,
        }
    } else {
        None
    }
}

/// Why the alarm rejects a request, if it does (no default subcommand).
pub open spec fn alarm_error(es: Seq<(String, ParamValue)>) -> Option<Seq<char>> {
    let sub = sub_or(es, ""@);
    if sub == "set"@ || sub == "schedule"@ {
        if str_param(es, "time"@) is None {
            Some("set: --time is required (HH:MM or ISO)"@)
        } else {
            None
        }
    } else if sub == "timer"@ {
        match str_param(es, "duration"@) {
            None => Some("timer: --duration is required"@),
            Some(d) => if duration_secs(d) is None {
                Some("invalid duration '"@ + d + "', use seconds, 5m, 1h"@)
            } else {
                None
            },
        }
    } else if sub == "open"@ || sub == "list"@ || sub == "cancel"@ {
        None
    } else if sub.len() == 0 {
        Some("no subcommand specified"@)
    } else {
        Some(unknown_sub(sub))
    }
}

/// Alarms and timers: set, timer, list, cancel, open.
pub fn alarm_plan(args: &Params) -> (p: Plan)
    ensures
        checked_call(p, alarm_error(args.entries@), sub_or(args.entries@, ""@)),
{
    let sub = subcommand_or(args, "");
    let s = sub.as_str();
    proof {
        reveal_strlit("");
        assert(""@.len() == 0);
    }
    if str_eq(s, "set") || str_eq(s, "schedule") {
        if args.get_str("time").is_none() {
            Plan::Reply(OffloadResult::bad_args("set: --time is required (HH:MM or ISO)"))
        } else {
            Plan::Call(sub)
        }
    } else if str_eq(s, "timer") {
        match args.get_str("duration") {
            None => Plan::Reply(OffloadResult::bad_args("timer: --duration is required")),
            Some(d) => {
                if parse_duration(d.as_str()).is_none() {
                    let mut m = chars_of("invalid duration '");
                    extend_str(&mut m, d.as_str());
                    extend_str(&mut m, "', use seconds, 5m, 1h");
                    let m = string_of(&m);
                    Plan::Reply(OffloadResult::bad_args(m.as_str()))
                } else {
                    Plan::Call(sub)
                }
            },
        }
    } else if str_eq(s, "open") || str_eq(s, "list") || str_eq(s, "cancel") {
        Plan::Call(sub)
    } else if str_eq(s, "") {
        Plan::Reply(OffloadResult::bad_args("no subcommand specified"))
    } else {
        assert(s@.len() != 0) by {
            if s@.len() == 0 {
                assert(s@ =~= ""@);
            }
        }
        Plan::Reply(unknown_subcommand(s))
    }
}

// ---------------------------------------------------------------------------
// contacts, device, notification, photos
// ---------------------------------------------------------------------------

/// Why the contacts handler rejects a request (subcommand `list` by
/// default).
pub open spec fn contacts_error(es: Seq<(String, ParamValue)>) -> Option<Seq<char>> {
    let sub = sub_or(es, "list"@);
    if sub == "list"@ {
        None
    } else if sub == "search"@ {
        if str_param(es, "query"@) is None {
            Some("search: query is required"@)
        } else {
            None
        }
    } else if sub == "get"@ || sub == "delete"@ {
        if str_param(es, "id"@) is None {
            Some(sub + ": id is required"@)
        } else {
            None
        }
    } else {
        Some(unknown_sub(sub))
    }
}

/// Contacts: list, search, get, delete.
pub fn contacts_plan(args: &Params) -> (p: Plan)
    ensures
        checked_call(p, contacts_error(args.entries@), sub_or(args.entries@, "list"@)),
{
    let sub = subcommand_or(args, "list");
    let s = sub.as_str();
    if str_eq(s, "list") {
        Plan::Call(sub)
    } else if str_eq(s, "search") {
        if args.get_str("query").is_none() {
            Plan::Reply(OffloadResult::bad_args("search: query is required"))
        } else {
            Plan::Call(sub)
        }
    } else if str_eq(s, "get") || str_eq(s, "delete") {
        if args.get_str("id").is_none() {
            Plan::Reply(bad_args_after(s, ": id is required"))
        } else {
            Plan::Call(sub)
        }
    } else {
        Plan::Reply(unknown_subcommand(s))
    }
}

/// Device information: any subcommand (`all` by default) goes through.
pub fn device_plan(args: &Params) -> (p: Plan)
    ensures
        checked_call(p, None, sub_or(args.entries@, "all"@)),
{
    Plan::Call(subcommand_or(args, "all"))
}

/// Why the notification handler rejects a request (subcommand `list` by
/// default): sending needs a title.
pub open spec fn notification_error(es: Seq<(String, ParamValue)>) -> Option<Seq<char>> {
    if sub_or(es, "list"@) == "send"@ && str_param(es, "title"@) is None {
        Some("send: --title is required"@)
    } else {
        None
    }
}

/// Notifications: any subcommand, `send` with a title.
pub fn notification_plan(args: &Params) -> (p: Plan)
    ensures
        checked_call(p, notification_error(args.entries@), sub_or(args.entries@, "list"@)),
{
    let sub = subcommand_or(args, "list");
    if str_eq(sub.as_str(), "send") && args.get_str("title").is_none() {
        Plan::Reply(OffloadResult::bad_args("send: --title is required"))
    } else {
        Plan::Call(sub)
    }
}

/// Why the photos handler rejects a request (subcommand `list` by
/// default): `near` needs numbers under `lat` and `lon`.
pub open spec fn photos_error(es: Seq<(String, ParamValue)>) -> Option<Seq<char>> {
    if sub_or(es, "list"@) == "near"@ && (!is_number(es, "lat"@) || !is_number(es, "lon"@)) {
        Some("near: --lat and --lon are required"@)
    } else {
        None
    }
}

/// Photos: any subcommand, `near` with coordinates.
pub fn photos_plan(args: &Params) -> (p: Plan)
    ensures
        checked_call(p, photos_error(args.entries@), sub_or(args.entries@, "list"@)),
{
    let sub = subcommand_or(args, "list");
    if str_eq(sub.as_str(), "near") && (!args.has_number("lat") || !args.has_number("lon")) {
        Plan::Reply(OffloadResult::bad_args("near: --lat and --lon are required"))
    } else {
        Plan::Call(sub)
    }
}

// ---------------------------------------------------------------------------
// location
// ---------------------------------------------------------------------------

/// Why the location handler rejects a request (subcommand `current` by
/// default); `lat_in_range` says whether the latitude lies in -90..=90.
pub open spec fn location_error(es: Seq<(String, ParamValue)>, lat_in_range: bool) -> Option<
    Seq<char>,
> {
    let sub = sub_or(es, "current"@);
    if sub == "current"@ {
        None
    } else if sub == "geocode"@ {
        if !is_number(es, "lat"@) || !has_lon(es) {
            Some("geocode: --lat and --lon are required"@)
        } else if !lat_in_range {
            Some("latitude out of range (-90..90)"@)
        } else {
            None
        }
    } else if sub == "forward"@ {
        if str_param(es, "address"@) is None {
            Some("forward: --address is required"@)
        } else {
            None
        }
    } else {
        Some(unknown_sub(sub))
    }
}

/// Location: current position, reverse and forward geocoding. The caller
/// compares the latitude, a float, with its bounds.
pub fn location_plan(args: &Params, lat_in_range: bool) -> (p: Plan)
    ensures
        checked_call(p, location_error(args.entries@, lat_in_range), sub_or(args.entries@, "current"@)),
{
    let sub = subcommand_or(args, "current");
    let s = sub.as_str();
    if str_eq(s, "current") {
        Plan::Call(sub)
    } else if str_eq(s, "geocode") {
        if !args.has_number("lat") || !lon_given(args) {
            Plan::Reply(OffloadResult::bad_args("geocode: --lat and --lon are required"))
        } else if !lat_in_range {
            Plan::Reply(OffloadResult::bad_args("latitude out of range (-90..90)"))
        } else {
            Plan::Call(sub)
        }
    } else if str_eq(s, "forward") {
        if args.get_str("address").is_none() {
            Plan::Reply(OffloadResult::bad_args("forward: --address is required"))
        } else {
            Plan::Call(sub)
        }
    } else {
        Plan::Reply(unknown_subcommand(s))
    }
}

// ---------------------------------------------------------------------------
// shizuku, speak, speech
// ---------------------------------------------------------------------------

/// The shell bridge: needs a subcommand and the Android side.
pub fn shizuku_plan(args: &Params, has_jni: bool) -> (p: Plan)
    ensures
        ({
            let sub = sub_or(args.entries@, ""@);
            if sub.len() == 0 {
                p matches Plan::Reply(r) && bad_args(r, "no subcommand specified"@)
            } else {
                bridged_call(
                    p,
                    has_jni,
                    sub,
                    "jni_callback not configured (Shizuku requires Android runtime)"@,
                )
            }
        }),
{
    let sub = subcommand_or(args, "");
    if sub.as_str().is_empty() {
        Plan::Reply(OffloadResult::bad_args("no subcommand specified"))
    } else {
        bridge(has_jni, sub, "jni_callback not configured (Shizuku requires Android runtime)")
    }
}

/// What the speaker is asked to do: stop, report its status, or speak.
pub open spec fn speak_sub(es: Seq<(String, ParamValue)>) -> Seq<char> {
    if bool_or(es, "stop"@, false) {
        "stop"@
    } else if bool_or(es, "status"@, false) {
        "status"@
    } else {
        "speak"@
    }
}

/// Text to speech: speaking needs a text, unless stopping or asking for the
/// status.
pub fn speak_plan(args: &Params, has_jni: bool) -> (p: Plan)
    ensures
        ({
            let es = args.entries@;
            if !bool_or(es, "stop"@, false) && !bool_or(es, "status"@, false) && str_param(es, "text"@) is None {
                p matches Plan::Reply(r) && bad_args(r, "speak: text is required (or use --stop / --status)"@)
            } else {
                bridged_call(p, has_jni, speak_sub(es), "jni_callback not configured"@)
            }
        }),
{
    let text = args.get_str("text");
    let stop = args.bool_or("stop", false);
    let status = args.bool_or("status", false);
    if !stop && !status && text.is_none() {
        return Plan::Reply(OffloadResult::bad_args("speak: text is required (or use --stop / --status)"));
    }
    let sub = if stop { owned("stop") } else if status { owned("status") } else { owned("speak") };
    bridge(has_jni, sub, "jni_callback not configured")
}

/// Speech recognition: any subcommand (`listen` by default) when the
/// Android side is there.
pub fn speech_plan(args: &Params, has_jni: bool) -> (p: Plan)
    ensures
        bridged_call(p, has_jni, sub_or(args.entries@, "listen"@), "jni_callback not configured"@),
{
    bridge(has_jni, subcommand_or(args, "listen"), "jni_callback not configured")
}

// ---------------------------------------------------------------------------
// weather
// ---------------------------------------------------------------------------

/// The forecast query of each weather subcommand.
pub open spec fn weather_query(es: Seq<(String, ParamValue)>, sub: Seq<char>) -> Option<Seq<char>> {
    if sub == "current"@ {
        Some(
            "current=temperature_2m,relative_humidity_2m,apparent_temperature,weather_code,wind_speed_10m,wind_direction_10m"@,
        )
    } else if sub == "hourly"@ {
        let hours: nat = match u64_param(es, "hours"@) {
            Some(h) => h as nat,
            None => 24,
        };
        Some(
            "hourly=temperature_2m,precipitation_probability,weather_code&forecast_hours="@ + crate::text::dec_nat(
                if hours < 168 { hours } else { 168 },
            ),
        )
    } else if sub == "daily"@ {
        let days: nat = match u64_param(es, "days"@) {
            Some(d) => d as nat,
            None => 7,
        };
        Some(
            "daily=weather_code,temperature_2m_max,temperature_2m_min,precipitation_probability,wind_speed_10m_max&forecast_days="@
                + crate::text::dec_nat(if days < 16 { days } else { 16 }),
        )
    } else if sub == "report"@ {
        Some(
            "current=temperature_2m,relative_humidity_2m,apparent_temperature,weather_code,wind_speed_10m&hourly=temperature_2m,precipitation_probability&daily=weather_code,temperature_2m_max,temperature_2m_min&forecast_hours=24&forecast_days=7"@,
        )
    } else if sub == "alerts"@ {
        Some("current=temperature_2m,weather_code"@)
    } else {
        None
    }
}

/// Weather from Open-Meteo (subcommand `current` by default). The caller
/// compares the coordinates, floats, with their bounds; the request needs
/// both as numbers, then a known subcommand.
pub fn weather_plan(args: &Params, lat_in_range: bool, lon_in_range: bool) -> (p: Plan)
    ensures
        ({
            let es = args.entries@;
            let sub = sub_or(es, "current"@);
            if !is_number(es, "lat"@) || !has_lon(es) {
                p matches Plan::Reply(r) && bad_args(r, sub + ": --lat and --lon are required"@)
            } else if !lat_in_range {
                p matches Plan::Reply(r) && bad_args(r, "latitude out of range (-90..90)"@)
            } else if !lon_in_range {
                p matches Plan::Reply(r) && bad_args(r, "longitude out of range (-180..180)"@)
            } else {
                match weather_query(es, sub) {
                    Some(q) => p matches Plan::Fetch(f) && f@ == q,
                    None => p matches Plan::Reply(r) && bad_args(r, unknown_sub(sub)),
                }
            }
        }),
{
    let sub = subcommand_or(args, "current");
    let s = sub.as_str();
    if !args.has_number("lat") || !lon_given(args) {
        return Plan::Reply(bad_args_after(s, ": --lat and --lon are required"));
    }
    if !lat_in_range {
        return Plan::Reply(OffloadResult::bad_args("latitude out of range (-90..90)"));
    }
    if !lon_in_range {
        return Plan::Reply(OffloadResult::bad_args("longitude out of range (-180..180)"));
    }
    if str_eq(s, "current") {
        Plan::Fetch(owned(
            "current=temperature_2m,relative_humidity_2m,apparent_temperature,weather_code,wind_speed_10m,wind_direction_10m",
        ))
    } else if str_eq(s, "hourly") {
        let hours: u64 = match args.get_u64("hours") {
            Some(h) => h,
            None => 24,
        };
        let mut q = chars_of("hourly=temperature_2m,precipitation_probability,weather_code&forecast_hours=");
        extend_chars(&mut q, &fmt_u64(if hours < 168 { hours } else { 168 }));
        Plan::Fetch(string_of(&q))
    } else if str_eq(s, "daily") {
        let days: u64 = match args.get_u64("days") {
            Some(d) => d,
            None => 7,
        };
        let mut q = chars_of(
            "daily=weather_code,temperature_2m_max,temperature_2m_min,precipitation_probability,wind_speed_10m_max&forecast_days=",
        );
        extend_chars(&mut q, &fmt_u64(if days < 16 { days } else { 16 }));
        Plan::Fetch(string_of(&q))
    } else if str_eq(s, "report") {
        Plan::Fetch(owned(
            "current=temperature_2m,relative_humidity_2m,apparent_temperature,weather_code,wind_speed_10m&hourly=temperature_2m,precipitation_probability&daily=weather_code,temperature_2m_max,temperature_2m_min&forecast_hours=24&forecast_days=7",
        ))
    } else if str_eq(s, "alerts") {
        Plan::Fetch(owned("current=temperature_2m,weather_code"))
    } else {
        Plan::Reply(unknown_subcommand(s))
    }
}

/// The answer when the weather service could not be reached or answered
/// badly; `message` describes the failure.
pub fn weather_failure(message: &str) -> (r: OffloadResult)
    ensures
        fails(r, "weather API error: "@ + message@, 1),
{
    let mut m = chars_of("weather API error: ");
    extend_str(&mut m, message);
    let m = string_of(&m);
    OffloadResult::error(m.as_str(), 1)
}

/// A number with a unit counts seconds by the unit: `s` one, `m` sixty and
/// `h` three thousand six hundred seconds for each.
pub proof fn lemma_duration_units(d: Seq<char>, n: nat)
    requires
        parse_u64(d) == Some(n),
    ensures
        suffixed_secs(d.push('s')) == Some(n),
        suffixed_secs(d.push('m')) == Some(n * 60),
        suffixed_secs(d.push('h')) == Some(n * 3600),
{
    reveal_strlit("s");
    reveal_strlit("m");
    reveal_strlit("h");
    assert("s"@ =~= seq!['s']);
    assert("m"@ =~= seq!['m']);
    assert("h"@ =~= seq!['h']);
    let ds = d.push('s');
    let dm = d.push('m');
    let dh = d.push('h');
    assert(ds.subrange(ds.len() - 1, ds.len() as int) =~= seq!['s']);
    assert(dm.subrange(dm.len() - 1, dm.len() as int) =~= seq!['m']);
    assert(dh.subrange(dh.len() - 1, dh.len() as int) =~= seq!['h']);
    assert(dm.subrange(dm.len() - 1, dm.len() as int) != seq!['s']) by {
        assert(dm.subrange(dm.len() - 1, dm.len() as int)[0] == 'm');
    }
    assert(dh.subrange(dh.len() - 1, dh.len() as int) != seq!['s']) by {
        assert(dh.subrange(dh.len() - 1, dh.len() as int)[0] == 'h');
    }
    assert(dh.subrange(dh.len() - 1, dh.len() as int) != seq!['m']) by {
        assert(dh.subrange(dh.len() - 1, dh.len() as int)[0] == 'h');
    }
    assert(ds.drop_last() =~= d);
    assert(dm.drop_last() =~= d);
    assert(dh.drop_last() =~= d);
}

} // verus!
