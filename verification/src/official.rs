//! The official rate-limit usage: reading the windows of a rate-limit reply,
//! following the JSON-RPC exchange with `codex app-server`, and picking the
//! latest rate limits recorded in the session logs.
use vstd::prelude::*;
use crate::json::{
    JsonNode, first_i64, first_number_index, first_u64, is_pointer, json_as_i64, json_clone,
    json_nodes, json_pointer, node_at, node_i64, node_str, opt_str_view, parse_json, parsed_json,
    read_i64, read_number, read_u64, str_at, sub_nodes, as_strs, path_views, node_is_number, node_u64,
};
use crate::text::{
    str_equal, text_chars, compare_chars, KeyOrder, key_lt, lines_of, text_lines,
    lemma_key_lt_irreflexive, lemma_key_lt_transitive,
};
use crate::session::is_token_count;

verus! {

/// The RFC 3339 text of a Unix time (whole seconds, UTC), or `None` where
/// chrono cannot represent it.
pub uninterp spec fn epoch_rfc3339(epoch: i64) -> Option<Seq<char>>;

/// `chrono::DateTime::<Utc>::from_timestamp(epoch, 0)`, written out with
/// `to_rfc3339`. Claims: the result is `epoch_rfc3339` of the time.
#[verifier::external_body]
pub fn rfc3339_from_epoch(epoch: i64) -> (res: Option<String>)
    ensures
        opt_str_view(res) == epoch_rfc3339(epoch),
{
    chrono::DateTime::<chrono::Utc>::from_timestamp(epoch, 0).map(|ts| ts.to_rfc3339())
}

/// The compact JSON text (`Display` of `serde_json::Value`) of the value with
/// these nodes.
pub uninterp spec fn json_display(nodes: Map<Seq<char>, JsonNode>) -> Seq<char>;

/// The compact JSON text of a value (`Display` of `serde_json::Value`), used in
/// error messages. Claims: the text is `json_display` of the value's nodes.
#[verifier::external_body]
pub fn json_text(v: &serde_json::Value) -> (res: String)
    ensures
        res@ == json_display(json_nodes(*v)),
{
    v.to_string()
}

/// What a rate-limit window is called in the snapshot.
#[derive(PartialEq, Eq, Structural, Clone, Copy, Debug)]
pub enum WindowLabel {
    FiveHour,
    Weekly,
    Primary,
    Secondary,
}

impl WindowLabel {
    /// The label text.
    pub fn text(&self) -> (res: &'static str)
        ensures
            res@ == window_label_text(*self),
            *self == WindowLabel::FiveHour ==> res@ == "5 hour usage limit"@,
            *self == WindowLabel::Weekly ==> res@ == "Weekly usage limit"@,
            *self == WindowLabel::Primary ==> res@ == "Primary usage limit"@,
            *self == WindowLabel::Secondary ==> res@ == "Secondary usage limit"@,
    {
        match self {
            WindowLabel::FiveHour => "5 hour usage limit",
            WindowLabel::Weekly => "Weekly usage limit",
            WindowLabel::Primary => "Primary usage limit",
            WindowLabel::Secondary => "Secondary usage limit",
        }
    }
}

pub open spec fn window_label_text(l: WindowLabel) -> Seq<char> {
    match l {
        WindowLabel::FiveHour => "5 hour usage limit"@,
        WindowLabel::Weekly => "Weekly usage limit"@,
        WindowLabel::Primary => "Primary usage limit"@,
        WindowLabel::Secondary => "Secondary usage limit"@,
    }
}

/// A window is named by its length (300 minutes, 10080 minutes), else by
/// whether it is the primary one.
pub open spec fn window_label_spec(window_minutes: Option<u64>, key: Seq<char>) -> WindowLabel {
    match window_minutes {
        Some(300) => WindowLabel::FiveHour,
        Some(10080) => WindowLabel::Weekly,
        _ => if key == "primary"@ {
            WindowLabel::Primary
        } else {
            WindowLabel::Secondary
        },
    }
}

/// Names a window.
pub fn window_label(window_minutes: Option<u64>, key: &str) -> (res: WindowLabel)
    ensures
        res == window_label_spec(window_minutes, key@),
{
    match window_minutes {
        Some(300) => WindowLabel::FiveHour,
        Some(10080) => WindowLabel::Weekly,
        _ => if str_equal(key, "primary") {
            WindowLabel::Primary
        } else {
            WindowLabel::Secondary
        },
    }
}

/// The pointers under which a field of window `key` is looked for, in order:
/// directly under the key, then (when `nested`) under `rateLimits` and under
/// `rateLimitsByLimitId/codex`; each under its camelCase name, then its
/// snake_case one.
pub open spec fn window_paths(key: Seq<char>, camel: Seq<char>, snake: Seq<char>, nested: bool) -> Seq<Seq<char>> {
    let direct = seq!["/"@ + key + "/"@ + camel, "/"@ + key + "/"@ + snake];
    if nested {
        direct + seq![
            "/rateLimits/"@ + key + "/"@ + camel,
            "/rateLimits/"@ + key + "/"@ + snake,
            "/rateLimitsByLimitId/codex/"@ + key + "/"@ + camel,
            "/rateLimitsByLimitId/codex/"@ + key + "/"@ + snake,
        ]
    } else {
        direct
    }
}

fn join3(a: &str, b: &str, c: &str) -> (res: String)
    ensures
        res@ == a@ + b@ + c@,
{
    let mut s = String::from_str(a);
    s.append(b);
    s.append(c);
    s
}

/// A window of 300 minutes is the five-hour one and a window of 10080
/// minutes the weekly one, under either key; a window of another or unknown
/// length is named after its key: primary, else secondary.
pub proof fn lemma_window_label(w: WindowReading, nodes: Map<Seq<char>, JsonNode>, key: Seq<char>, nested: bool)
    requires
        window_matches(w, nodes, key, nested),
    ensures
        w.window_minutes == Some(300u64) ==> w.label == WindowLabel::FiveHour,
        w.window_minutes == Some(10080u64) ==> w.label == WindowLabel::Weekly,
        w.window_minutes != Some(300u64) && w.window_minutes != Some(10080u64) && key == "primary"@
            ==> w.label == WindowLabel::Primary,
        w.window_minutes != Some(300u64) && w.window_minutes != Some(10080u64) && key != "primary"@
            ==> w.label == WindowLabel::Secondary,
{
}

/// Builds the pointers of `window_paths`.
fn build_window_paths(key: &str, camel: &str, snake: &str, nested: bool) -> (res: Vec<String>)
    ensures
        res@.map_values(|p: String| p@) == window_paths(key@, camel@, snake@, nested),
{
    let slash = "/";
    let rl = "/rateLimits/";
    let rlc = "/rateLimitsByLimitId/codex/";
    let mut camel_tail = String::from_str(slash);
    camel_tail.append(camel);
    let mut snake_tail = String::from_str(slash);
    snake_tail.append(snake);
    let mut v: Vec<String> = Vec::new();
    v.push(join3(slash, key, camel_tail.as_str()));
    v.push(join3(slash, key, snake_tail.as_str()));
    if nested {
        v.push(join3(rl, key, camel_tail.as_str()));
        v.push(join3(rl, key, snake_tail.as_str()));
        v.push(join3(rlc, key, camel_tail.as_str()));
        v.push(join3(rlc, key, snake_tail.as_str()));
    }
    proof {
        let w = window_paths(key@, camel@, snake@, nested);
        assert(v@.map_values(|p: String| p@) =~= w) by {
            assert(("/"@ + key@) + ("/"@ + camel@) =~= "/"@ + key@ + "/"@ + camel@);
            assert(("/"@ + key@) + ("/"@ + snake@) =~= "/"@ + key@ + "/"@ + snake@);
            assert(("/rateLimits/"@ + key@) + ("/"@ + camel@) =~= "/rateLimits/"@ + key@ + "/"@ + camel@);
            assert(("/rateLimits/"@ + key@) + ("/"@ + snake@) =~= "/rateLimits/"@ + key@ + "/"@ + snake@);
            assert(("/rateLimitsByLimitId/codex/"@ + key@) + ("/"@ + camel@)
                =~= "/rateLimitsByLimitId/codex/"@ + key@ + "/"@ + camel@);
            assert(("/rateLimitsByLimitId/codex/"@ + key@) + ("/"@ + snake@)
                =~= "/rateLimitsByLimitId/codex/"@ + key@ + "/"@ + snake@);
        }
    }
    v
}

/// One rate-limit window of a reply.
pub struct WindowReading {
    pub label: WindowLabel,
    /// The number found as the used percentage (read as a float by the caller).
    pub used: serde_json::Value,
    pub window_minutes: Option<u64>,
    pub resets_at: Option<String>,
}

pub open spec fn used_paths(key: Seq<char>, nested: bool) -> Seq<Seq<char>> {
    window_paths(key, "usedPercent"@, "used_percent"@, nested)
}

pub open spec fn minutes_paths(key: Seq<char>, nested: bool) -> Seq<Seq<char>> {
    window_paths(key, "windowDurationMins"@, "window_minutes"@, nested)
}

pub open spec fn resets_paths(key: Seq<char>, nested: bool) -> Seq<Seq<char>> {
    window_paths(key, "resetsAt"@, "resets_at"@, nested)
}

/// A window is present where a used percentage is found for it.
pub open spec fn window_present(nodes: Map<Seq<char>, JsonNode>, key: Seq<char>, nested: bool) -> bool {
    first_number_index(nodes, used_paths(key, nested), 0) is Some
}

/// The reset time of an optional Unix time.
pub open spec fn resets_text(epoch: Option<i64>) -> Option<Seq<char>> {
    match epoch {
        Some(e) => epoch_rfc3339(e),
        None => None,
    }
}

/// A window read from the nodes of a reply: the used percentage is the first
/// number found, the length and reset time the first integers found, and the
/// label follows from the length and the key.
pub open spec fn window_matches(w: WindowReading, nodes: Map<Seq<char>, JsonNode>, key: Seq<char>, nested: bool) -> bool {
    let up = used_paths(key, nested);
    &&& first_number_index(nodes, up, 0) is Some
    &&& json_nodes(w.used) == sub_nodes(nodes, up[first_number_index(nodes, up, 0).unwrap()])
    &&& w.window_minutes == first_u64(nodes, minutes_paths(key, nested), 0)
    &&& opt_str_view(w.resets_at) == resets_text(first_i64(nodes, resets_paths(key, nested), 0))
    &&& w.label == window_label_spec(w.window_minutes, key)
}

fn resets_from_epoch(epoch: Option<i64>) -> (res: Option<String>)
    ensures
        opt_str_view(res) == resets_text(epoch),
{
    match epoch {
        Some(e) => rfc3339_from_epoch(e),
        None => None,
    }
}

/// Reads window `key` ("primary" or "secondary") of a rate-limit reply;
/// `None` where it has no used percentage. With `nested`, the window is also
/// looked for under `rateLimits` and `rateLimitsByLimitId/codex`.
pub fn read_window(rate_limits: &serde_json::Value, key: &str, nested: bool) -> (res: Option<WindowReading>)
    ensures
        res is Some <==> window_present(json_nodes(*rate_limits), key@, nested),
        res matches Some(w) ==> window_matches(w, json_nodes(*rate_limits), key@, nested),
{
    let up = build_window_paths(key, "usedPercent", "used_percent", nested);
    let ups = as_strs(&up);
    let used = match read_number(rate_limits, ups.as_slice()) {
        Some(u) => json_clone(u),
        None => return None,
    };
    let mp = build_window_paths(key, "windowDurationMins", "window_minutes", nested);
    let mps = as_strs(&mp);
    let window_minutes = read_u64(rate_limits, mps.as_slice());
    let rp = build_window_paths(key, "resetsAt", "resets_at", nested);
    let rps = as_strs(&rp);
    let resets_epoch = read_i64(rate_limits, rps.as_slice());
    let resets_at = resets_from_epoch(resets_epoch);
    let label = window_label(window_minutes, key);
    Some(WindowReading { label, used, window_minutes, resets_at })
}

/// A window is read under its own key: its used percentage is the number at
/// `/{key}/usedPercent` where there is one, else at `/{key}/used_percent`;
/// only where neither holds a number (and the reply is nested) is it looked
/// for under `/rateLimits/{key}`. Its length is the integer at
/// `/{key}/windowDurationMins` where there is one, else at
/// `/{key}/window_minutes`.
pub proof fn lemma_window_reads_key(w: WindowReading, nodes: Map<Seq<char>, JsonNode>, key: Seq<char>, nested: bool)
    requires
        window_matches(w, nodes, key, nested),
    ensures
        node_is_number(node_at(nodes, "/"@ + key + "/usedPercent"@)) ==> json_nodes(w.used) == sub_nodes(
            nodes,
            "/"@ + key + "/usedPercent"@,
        ),
        !node_is_number(node_at(nodes, "/"@ + key + "/usedPercent"@)) && node_is_number(
            node_at(nodes, "/"@ + key + "/used_percent"@),
        ) ==> json_nodes(w.used) == sub_nodes(nodes, "/"@ + key + "/used_percent"@),
        !node_is_number(node_at(nodes, "/"@ + key + "/usedPercent"@)) && !node_is_number(
            node_at(nodes, "/"@ + key + "/used_percent"@),
        ) ==> nested,
        !node_is_number(node_at(nodes, "/"@ + key + "/usedPercent"@)) && !node_is_number(
            node_at(nodes, "/"@ + key + "/used_percent"@),
        ) && node_is_number(node_at(nodes, "/rateLimits/"@ + key + "/usedPercent"@)) ==> json_nodes(w.used)
            == sub_nodes(nodes, "/rateLimits/"@ + key + "/usedPercent"@),
        node_u64(node_at(nodes, "/"@ + key + "/windowDurationMins"@)) matches Some(m) ==> w.window_minutes
            == Some(m),
        node_u64(node_at(nodes, "/"@ + key + "/windowDurationMins"@)) is None ==> (node_u64(
            node_at(nodes, "/"@ + key + "/window_minutes"@),
        ) matches Some(m) ==> w.window_minutes == Some(m)),
{
    reveal_with_fuel(first_number_index, 4);
    reveal_with_fuel(first_u64, 3);
    reveal_strlit("/");
    reveal_strlit("/usedPercent");
    reveal_strlit("usedPercent");
    reveal_strlit("/used_percent");
    reveal_strlit("used_percent");
    reveal_strlit("/windowDurationMins");
    reveal_strlit("windowDurationMins");
    reveal_strlit("/window_minutes");
    reveal_strlit("window_minutes");
    let up = used_paths(key, nested);
    let mp = minutes_paths(key, nested);
    assert(up[0] =~= "/"@ + key + "/usedPercent"@);
    assert(up[1] =~= "/"@ + key + "/used_percent"@);
    assert(mp[0] =~= "/"@ + key + "/windowDurationMins"@);
    assert(mp[1] =~= "/"@ + key + "/window_minutes"@);
    if nested {
        reveal_strlit("/rateLimits/");
        assert(up[2] =~= "/rateLimits/"@ + key + "/usedPercent"@);
    }
}

/// Where both windows are present, the reply gives two, the primary one
/// first and the secondary one second.
pub proof fn lemma_windows_primary_first(ws: Seq<WindowReading>, n: Map<Seq<char>, JsonNode>, nested: bool)
    requires
        windows_match(ws, n, nested),
        window_present(n, "primary"@, nested),
        window_present(n, "secondary"@, nested),
    ensures
        ws.len() == 2,
        window_matches(ws[0], n, "primary"@, nested),
        window_matches(ws[1], n, "secondary"@, nested),
{
}

/// The windows present in a reply, primary first.
pub open spec fn windows_match(ws: Seq<WindowReading>, n: Map<Seq<char>, JsonNode>, nested: bool) -> bool {
    &&& ws.len() == (if window_present(n, "primary"@, nested) {
        1int
    } else {
        0int
    }) + (if window_present(n, "secondary"@, nested) {
        1int
    } else {
        0int
    })
    &&& window_present(n, "primary"@, nested) ==> window_matches(ws[0], n, "primary"@, nested)
    &&& window_present(n, "secondary"@, nested) ==> window_matches(
        ws[ws.len() - 1],
        n,
        "secondary"@,
        nested,
    )
}

/// The windows of a reply that are present, primary first.
pub fn build_official_windows(rate_limits: &serde_json::Value, nested: bool) -> (res: Vec<WindowReading>)
    ensures
        windows_match(res@, json_nodes(*rate_limits), nested),
{
    let mut windows: Vec<WindowReading> = Vec::new();
    if let Some(w) = read_window(rate_limits, "primary", nested) {
        windows.push(w);
    }
    if let Some(w) = read_window(rate_limits, "secondary", nested) {
        windows.push(w);
    }
    windows
}

/// The usage read from a rate-limit reply, all but the float arithmetic
/// (remaining percentage, status) that the caller does on `used`.
pub struct OfficialReading {
    pub used: Option<serde_json::Value>,
    pub window_minutes: Option<u64>,
    pub resets_at: Option<String>,
    pub plan_type: Option<String>,
    pub rate_limit_reached_type: Option<String>,
    pub windows: Vec<WindowReading>,
}

/// The used percentage of a reading: the number found first along `paths`.
pub open spec fn used_matches(used: Option<serde_json::Value>, n: Map<Seq<char>, JsonNode>, paths: Seq<Seq<char>>) -> bool {
    &&& (used is Some <==> first_number_index(n, paths, 0) is Some)
    &&& (used matches Some(u) ==> json_nodes(u) == sub_nodes(n, paths[first_number_index(n, paths, 0).unwrap()]))
}

pub open spec fn rpc_used_paths() -> Seq<Seq<char>> {
    seq![
        "/rateLimits/primary/usedPercent"@,
        "/rateLimits/primary/used_percent"@,
        "/rateLimitsByLimitId/codex/primary/usedPercent"@,
        "/rateLimitsByLimitId/codex/primary/used_percent"@,
    ]
}

pub open spec fn rpc_minutes_paths() -> Seq<Seq<char>> {
    seq![
        "/rateLimits/primary/windowDurationMins"@,
        "/rateLimits/primary/window_minutes"@,
        "/rateLimitsByLimitId/codex/primary/windowDurationMins"@,
        "/rateLimitsByLimitId/codex/primary/window_minutes"@,
    ]
}

pub open spec fn rpc_resets_paths() -> Seq<Seq<char>> {
    seq![
        "/rateLimits/primary/resetsAt"@,
        "/rateLimits/primary/resets_at"@,
        "/rateLimitsByLimitId/codex/primary/resetsAt"@,
        "/rateLimitsByLimitId/codex/primary/resets_at"@,
    ]
}

/// The reset time of an RPC reply: where the Unix time cannot be written
/// out, the time of the refresh.
pub open spec fn rpc_resets_text(epoch: Option<i64>, now: Seq<char>) -> Option<Seq<char>> {
    match epoch {
        Some(e) => match epoch_rfc3339(e) {
            Some(t) => Some(t),
            None => Some(now),
        },
        None => None,
    }
}

/// The reading of an `account/rateLimits/read` reply (`rate`) and, where it
/// came, the `account/read` reply (`account`).
pub open spec fn rpc_reading_matches(
    r: OfficialReading,
    account: Option<Map<Seq<char>, JsonNode>>,
    rate: Map<Seq<char>, JsonNode>,
    now: Seq<char>,
) -> bool {
    &&& used_matches(r.used, rate, rpc_used_paths())
    &&& r.window_minutes == first_u64(rate, rpc_minutes_paths(), 0)
    &&& opt_str_view(r.resets_at) == rpc_resets_text(first_i64(rate, rpc_resets_paths(), 0), now)
    &&& opt_str_view(r.plan_type) == (match account {
        Some(a) => match node_str(node_at(a, "/planType"@)) {
            Some(p) => Some(p),
            None => node_str(node_at(rate, "/rateLimits/planType"@)),
        },
        None => node_str(node_at(rate, "/rateLimits/planType"@)),
    })
    &&& opt_str_view(r.rate_limit_reached_type) == node_str(
        node_at(rate, "/rateLimits/rateLimitReachedType"@),
    )
    &&& windows_match(r.windows@, rate, true)
}

/// An RPC reading is read from the primary window only. Its used percentage
/// is the number at `/rateLimits/primary/usedPercent` where there is one,
/// whatever the secondary window holds; else the number at
/// `/rateLimits/primary/used_percent`, then those under
/// `rateLimitsByLimitId/codex/primary`; there is none where none of these
/// four pointers reaches a number. Its window length is the integer at
/// `/rateLimits/primary/windowDurationMins` where there is one, and its reset
/// time follows the integer at `/rateLimits/primary/resetsAt` where there is
/// one (the time of the refresh where that cannot be written out). The plan
/// is the account's `planType` where the account reply has one, else the
/// rate-limit reply's.
pub proof fn lemma_rpc_reading_reads_primary(
    r: OfficialReading,
    account: Option<Map<Seq<char>, JsonNode>>,
    rate: Map<Seq<char>, JsonNode>,
    now: Seq<char>,
)
    requires
        rpc_reading_matches(r, account, rate, now),
    ensures
        node_is_number(node_at(rate, "/rateLimits/primary/usedPercent"@)) ==> (r.used matches Some(u)
            && json_nodes(u) == sub_nodes(rate, "/rateLimits/primary/usedPercent"@)),
        !node_is_number(node_at(rate, "/rateLimits/primary/usedPercent"@)) && node_is_number(
            node_at(rate, "/rateLimits/primary/used_percent"@),
        ) ==> (r.used matches Some(u) && json_nodes(u) == sub_nodes(rate, "/rateLimits/primary/used_percent"@)),
        !node_is_number(node_at(rate, "/rateLimits/primary/usedPercent"@)) && !node_is_number(
            node_at(rate, "/rateLimits/primary/used_percent"@),
        ) && node_is_number(node_at(rate, "/rateLimitsByLimitId/codex/primary/usedPercent"@)) ==> (r.used matches Some(
            u,
        ) && json_nodes(u) == sub_nodes(rate, "/rateLimitsByLimitId/codex/primary/usedPercent"@)),
        !node_is_number(node_at(rate, "/rateLimits/primary/usedPercent"@)) && !node_is_number(
            node_at(rate, "/rateLimits/primary/used_percent"@),
        ) && !node_is_number(node_at(rate, "/rateLimitsByLimitId/codex/primary/usedPercent"@)) && node_is_number(
            node_at(rate, "/rateLimitsByLimitId/codex/primary/used_percent"@),
        ) ==> (r.used matches Some(u) && json_nodes(u) == sub_nodes(
            rate,
            "/rateLimitsByLimitId/codex/primary/used_percent"@,
        )),
        !node_is_number(node_at(rate, "/rateLimits/primary/usedPercent"@)) && !node_is_number(
            node_at(rate, "/rateLimits/primary/used_percent"@),
        ) && !node_is_number(node_at(rate, "/rateLimitsByLimitId/codex/primary/usedPercent"@)) && !node_is_number(
            node_at(rate, "/rateLimitsByLimitId/codex/primary/used_percent"@),
        ) ==> r.used is None,
        node_u64(node_at(rate, "/rateLimits/primary/windowDurationMins"@)) matches Some(m) ==> r.window_minutes
            == Some(m),
        node_i64(node_at(rate, "/rateLimits/primary/resetsAt"@)) matches Some(e) ==> opt_str_view(r.resets_at)
            == Some(
            match epoch_rfc3339(e) {
                Some(t) => t,
                None => now,
            },
        ),
        account matches Some(a) ==> (node_str(node_at(a, "/planType"@)) matches Some(p) ==> opt_str_view(
            r.plan_type,
        ) == Some(p)),
        (account is None || node_str(node_at(account->Some_0, "/planType"@)) is None) ==> opt_str_view(
            r.plan_type,
        ) == node_str(node_at(rate, "/rateLimits/planType"@)),
        opt_str_view(r.rate_limit_reached_type) == node_str(node_at(rate, "/rateLimits/rateLimitReachedType"@)),
{
    reveal_with_fuel(first_number_index, 5);
    reveal_with_fuel(first_u64, 2);
    reveal_with_fuel(first_i64, 2);
    assert(rpc_minutes_paths()[0] == "/rateLimits/primary/windowDurationMins"@);
    assert(rpc_resets_paths()[0] == "/rateLimits/primary/resetsAt"@);
    let p = rpc_used_paths();
    assert(p.len() == 4);
    assert(p[0] == "/rateLimits/primary/usedPercent"@);
    assert(p[1] == "/rateLimits/primary/used_percent"@);
    assert(p[2] == "/rateLimitsByLimitId/codex/primary/usedPercent"@);
    assert(p[3] == "/rateLimitsByLimitId/codex/primary/used_percent"@);
}

/// Reads the usage out of the RPC replies.
pub fn rpc_reading(account: Option<&serde_json::Value>, rate_limits: &serde_json::Value, now: &str) -> (res: OfficialReading)
    ensures
        rpc_reading_matches(
            res,
            match account {
                Some(a) => Some(json_nodes(*a)),
                None => None,
            },
            json_nodes(*rate_limits),
            now@,
        ),
{
    let used_paths: Vec<&str> = vec![
        "/rateLimits/primary/usedPercent",
        "/rateLimits/primary/used_percent",
        "/rateLimitsByLimitId/codex/primary/usedPercent",
        "/rateLimitsByLimitId/codex/primary/used_percent",
    ];
    let minutes_paths: Vec<&str> = vec![
        "/rateLimits/primary/windowDurationMins",
        "/rateLimits/primary/window_minutes",
        "/rateLimitsByLimitId/codex/primary/windowDurationMins",
        "/rateLimitsByLimitId/codex/primary/window_minutes",
    ];
    let resets_paths: Vec<&str> = vec![
        "/rateLimits/primary/resetsAt",
        "/rateLimits/primary/resets_at",
        "/rateLimitsByLimitId/codex/primary/resetsAt",
        "/rateLimitsByLimitId/codex/primary/resets_at",
    ];
    assert(path_views(used_paths@) =~= rpc_used_paths());
    assert(path_views(minutes_paths@) =~= rpc_minutes_paths());
    assert(path_views(resets_paths@) =~= rpc_resets_paths());
    let used = match read_number(rate_limits, used_paths.as_slice()) {
        Some(u) => Some(json_clone(u)),
        None => None,
    };
    let window_minutes = read_u64(rate_limits, minutes_paths.as_slice());
    let resets_epoch = read_i64(rate_limits, resets_paths.as_slice());
    let resets_at = match resets_epoch {
        Some(e) => match rfc3339_from_epoch(e) {
            Some(t) => Some(t),
            None => Some(String::from_str(now)),
        },
        None => None,
    };
    let plan_type = match account {
        Some(a) => match str_at(a, "/planType") {
            Some(p) => Some(p),
            None => str_at(rate_limits, "/rateLimits/planType"),
        },
        None => str_at(rate_limits, "/rateLimits/planType"),
    };
    let rate_limit_reached_type = str_at(rate_limits, "/rateLimits/rateLimitReachedType");
    let windows = build_official_windows(rate_limits, true);
    OfficialReading { used, window_minutes, resets_at, plan_type, rate_limit_reached_type, windows }
}

pub open spec fn local_used_paths() -> Seq<Seq<char>> {
    seq!["/primary/used_percent"@, "/primary/usedPercent"@, "/secondary/used_percent"@]
}

pub open spec fn local_minutes_paths() -> Seq<Seq<char>> {
    seq!["/primary/window_minutes"@, "/primary/windowDurationMins"@, "/secondary/window_minutes"@]
}

pub open spec fn local_resets_paths() -> Seq<Seq<char>> {
    seq!["/primary/resets_at"@, "/primary/resetsAt"@, "/secondary/resets_at"@]
}

/// The reading of rate limits recorded in a session log; there is one only
/// where a used percentage is found.
pub open spec fn local_reading_matches(r: OfficialReading, rate: Map<Seq<char>, JsonNode>) -> bool {
    &&& used_matches(r.used, rate, local_used_paths())
    &&& r.window_minutes == first_u64(rate, local_minutes_paths(), 0)
    &&& opt_str_view(r.resets_at) == resets_text(first_i64(rate, local_resets_paths(), 0))
    &&& opt_str_view(r.plan_type) == node_str(node_at(rate, "/plan_type"@))
    &&& opt_str_view(r.rate_limit_reached_type) == node_str(node_at(rate, "/rate_limit_reached_type"@))
    &&& windows_match(r.windows@, rate, false)
}

/// A reading of rate limits recorded in a session log prefers the primary
/// window. Its used percentage is the number at `/primary/used_percent` where
/// there is one, else the one at `/primary/usedPercent`; the secondary
/// window's `/secondary/used_percent` is taken only where neither is a
/// number, and there is none where that is not a number either. Its window
/// length is the integer at `/primary/window_minutes` where there is one, the
/// secondary window's only where neither primary pointer holds one; its
/// reset time follows the integer at `/primary/resets_at` where there is one.
pub proof fn lemma_local_reading_prefers_primary(r: OfficialReading, rate: Map<Seq<char>, JsonNode>)
    requires
        local_reading_matches(r, rate),
    ensures
        node_is_number(node_at(rate, "/primary/used_percent"@)) ==> (r.used matches Some(u) && json_nodes(u)
            == sub_nodes(rate, "/primary/used_percent"@)),
        !node_is_number(node_at(rate, "/primary/used_percent"@)) && node_is_number(
            node_at(rate, "/primary/usedPercent"@),
        ) ==> (r.used matches Some(u) && json_nodes(u) == sub_nodes(rate, "/primary/usedPercent"@)),
        !node_is_number(node_at(rate, "/primary/used_percent"@)) && !node_is_number(
            node_at(rate, "/primary/usedPercent"@),
        ) && node_is_number(node_at(rate, "/secondary/used_percent"@)) ==> (r.used matches Some(u) && json_nodes(u)
            == sub_nodes(rate, "/secondary/used_percent"@)),
        !node_is_number(node_at(rate, "/primary/used_percent"@)) && !node_is_number(
            node_at(rate, "/primary/usedPercent"@),
        ) && !node_is_number(node_at(rate, "/secondary/used_percent"@)) ==> r.used is None,
        node_u64(node_at(rate, "/primary/window_minutes"@)) matches Some(m) ==> r.window_minutes == Some(m),
        node_u64(node_at(rate, "/primary/window_minutes"@)) is None && node_u64(
            node_at(rate, "/primary/windowDurationMins"@),
        ) is None ==> r.window_minutes == node_u64(node_at(rate, "/secondary/window_minutes"@)),
        node_i64(node_at(rate, "/primary/resets_at"@)) matches Some(e) ==> opt_str_view(r.resets_at)
            == epoch_rfc3339(e),
        opt_str_view(r.plan_type) == node_str(node_at(rate, "/plan_type"@)),
{
    reveal_with_fuel(first_number_index, 4);
    reveal_with_fuel(first_u64, 4);
    reveal_with_fuel(first_i64, 2);
    assert(local_minutes_paths()[0] == "/primary/window_minutes"@);
    assert(local_minutes_paths()[1] == "/primary/windowDurationMins"@);
    assert(local_minutes_paths()[2] == "/secondary/window_minutes"@);
    assert(local_resets_paths()[0] == "/primary/resets_at"@);
    let p = local_used_paths();
    assert(p.len() == 3);
    assert(p[0] == "/primary/used_percent"@);
    assert(p[1] == "/primary/usedPercent"@);
    assert(p[2] == "/secondary/used_percent"@);
}

/// Reads the usage out of rate limits recorded in a session log; `None`
/// where no used percentage is found.
pub fn local_reading(rate: &serde_json::Value) -> (res: Option<OfficialReading>)
    ensures
        res is Some <==> first_number_index(json_nodes(*rate), local_used_paths(), 0) is Some,
        res matches Some(r) ==> local_reading_matches(r, json_nodes(*rate)),
{
    let used_paths: Vec<&str> = vec!["/primary/used_percent", "/primary/usedPercent", "/secondary/used_percent"];
    let minutes_paths: Vec<&str> = vec![
        "/primary/window_minutes",
        "/primary/windowDurationMins",
        "/secondary/window_minutes",
    ];
    let resets_paths: Vec<&str> = vec!["/primary/resets_at", "/primary/resetsAt", "/secondary/resets_at"];
    assert(path_views(used_paths@) =~= local_used_paths());
    assert(path_views(minutes_paths@) =~= local_minutes_paths());
    assert(path_views(resets_paths@) =~= local_resets_paths());
    let used = match read_number(rate, used_paths.as_slice()) {
        Some(u) => json_clone(u),
        None => return None,
    };
    let window_minutes = read_u64(rate, minutes_paths.as_slice());
    let resets_epoch = read_i64(rate, resets_paths.as_slice());
    let resets_at = resets_from_epoch(resets_epoch);
    let plan_type = str_at(rate, "/plan_type");
    let rate_limit_reached_type = str_at(rate, "/rate_limit_reached_type");
    let windows = build_official_windows(rate, false);
    Some(OfficialReading { used: Some(used), window_minutes, resets_at, plan_type, rate_limit_reached_type, windows })
}

/// What the monitor does after one line of the `codex app-server` replies.
pub enum RpcStep {
    /// Read the next line.
    Continue,
    /// The rate limits came: stop reading.
    Done,
    /// The exchange failed, with this message.
    Failed(String),
}

/// The replies kept so far: the result of `account/read` (id 2) and of
/// `account/rateLimits/read` (id 3), and how many lines were read.
pub struct RpcReplies {
    pub account: Option<serde_json::Value>,
    pub rate_limits: Option<serde_json::Value>,
    pub lines_read: usize,
}

/// How many lines of the server's output are read at most.
pub open spec fn rpc_line_limit() -> int {
    20
}

/// The line count after one more line.
pub open spec fn next_count(n: usize) -> usize {
    if n < usize::MAX {
        (n + 1) as usize
    } else {
        n
    }
}

/// Both hold the same replies.
pub open spec fn same_replies(a: RpcReplies, b: RpcReplies) -> bool {
    a.account == b.account && a.rate_limits == b.rate_limits
}

/// The id of a JSON-RPC reply.
pub open spec fn reply_id(n: Map<Seq<char>, JsonNode>) -> Option<i64> {
    node_i64(node_at(n, "/id"@))
}

pub open spec fn has_error(n: Map<Seq<char>, JsonNode>) -> bool {
    node_at(n, "/error"@) is Some
}

/// A reply's `result` is kept: present exactly where the reply has one, with
/// its nodes.
pub open spec fn result_kept(kept: Option<serde_json::Value>, n: Map<Seq<char>, JsonNode>) -> bool {
    &&& (kept is Some <==> node_at(n, "/result"@) is Some)
    &&& (kept matches Some(v) ==> json_nodes(v) == sub_nodes(n, "/result"@))
}


/// A failure whose message is `prefix` followed by the JSON text of the
/// reply's `error`.
pub open spec fn failed_with(step: RpcStep, prefix: Seq<char>, n: Map<Seq<char>, JsonNode>) -> bool {
    step matches RpcStep::Failed(m) && m@ == prefix + json_display(sub_nodes(n, "/error"@))
}

fn failure(prefix: &str, err: &serde_json::Value) -> (res: RpcStep)
    ensures
        res matches RpcStep::Failed(m) && m@ == prefix@ + json_display(json_nodes(*err)),
{
    let mut m = String::from_str(prefix);
    let t = json_text(err);
    m.append(t.as_str());
    RpcStep::Failed(m)
}

impl RpcReplies {
    /// Nothing received yet.
    pub fn new() -> (res: RpcReplies)
        ensures
            res.account is None,
            res.rate_limits is None,
            res.lines_read == 0,
    {
        RpcReplies { account: None, rate_limits: None, lines_read: 0 }
    }

    /// Whether another line is to be read: at most 20 lines are.
    pub fn wants_more_lines(&self) -> (res: bool)
        ensures
            res == (self.lines_read < rpc_line_limit()),
            res == (self.lines_read < 20),
    {
        self.lines_read < 20
    }

    /// Takes one line of the server's output. A line that is not JSON fails
    /// the exchange with the parser's message; a reply with id 2 or 3 that
    /// carries an error fails it; otherwise the result of id 2 is kept as the
    /// account, and the result of id 3 as the rate limits, which ends the
    /// exchange. Other lines are passed over. Every line is counted.
    pub fn on_line(&mut self, line: &str) -> (res: RpcStep)
        ensures
            final(self).lines_read == next_count(old(self).lines_read),
            match parsed_json(line@) {
                Err(m) => (res matches RpcStep::Failed(e) && e@ == m) && same_replies(*final(self), *old(self)),
                Ok(n) => if reply_id(n) == Some(2i64) {
                    if has_error(n) {
                        failed_with(res, "account/read failed: "@, n) && same_replies(*final(self), *old(self))
                    } else {
                        res is Continue && result_kept(final(self).account, n)
                            && final(self).rate_limits == old(self).rate_limits
                    }
                } else if reply_id(n) == Some(3i64) {
                    if has_error(n) {
                        failed_with(res, "account/rateLimits/read failed: "@, n) && same_replies(*final(self), *old(self))
                    } else {
                        res is Done && result_kept(final(self).rate_limits, n)
                            && final(self).account == old(self).account
                    }
                } else {
                    res is Continue && same_replies(*final(self), *old(self))
                },
            },
    {
        if self.lines_read < usize::MAX {
            self.lines_read = self.lines_read + 1;
        }
        let value = match parse_json(line) {
            Ok(v) => v,
            Err(e) => return RpcStep::Failed(e),
        };
        let id = match json_pointer(&value, "/id") {
            Some(i) => {
                proof {
                    crate::json::lemma_sub_nodes_subtree(json_nodes(value), "/id"@);
                    let e = Seq::<char>::empty();
                    assert(crate::json::is_pointer(e));
                    assert("/id"@ + e =~= "/id"@);
                }
                json_as_i64(i)
            },
            None => None,
        };
        match id {
            Some(2) => {
                if let Some(err) = json_pointer(&value, "/error") {
                    return failure("account/read failed: ", err);
                }
                self.account = match json_pointer(&value, "/result") {
                    Some(r) => Some(json_clone(r)),
                    None => None,
                };
                RpcStep::Continue
            },
            Some(3) => {
                if let Some(err) = json_pointer(&value, "/error") {
                    return failure("account/rateLimits/read failed: ", err);
                }
                self.rate_limits = match json_pointer(&value, "/result") {
                    Some(r) => Some(json_clone(r)),
                    None => None,
                };
                RpcStep::Done
            },
            _ => RpcStep::Continue,
        }
    }

    /// The usage read from the replies once the exchange is over; an error
    /// where the rate limits never came.
    pub fn reading(&self, now: &str) -> (res: Result<OfficialReading, String>)
        ensures
            self.rate_limits is None ==> (res matches Err(e) && e@ == "rate limit response not received"@),
            self.rate_limits matches Some(rl) ==> (res matches Ok(r) && rpc_reading_matches(
                r,
                match self.account {
                    Some(a) => Some(json_nodes(a)),
                    None => None,
                },
                json_nodes(rl),
                now@,
            )),
    {
        match &self.rate_limits {
            Some(rl) => Ok(rpc_reading(self.account.as_ref(), rl, now)),
            None => Err(String::from_str("rate limit response not received")),
        }
    }
}

/// A log line that records rate limits: a `token_count` event with a
/// `payload/rate_limits` entry.
pub open spec fn rate_candidate(n: Map<Seq<char>, JsonNode>) -> bool {
    is_token_count(n) && node_at(n, "/payload/rate_limits"@) is Some
}

/// The time of a log line, empty where it has none.
pub open spec fn line_timestamp(n: Map<Seq<char>, JsonNode>) -> Seq<char> {
    match node_str(node_at(n, "/timestamp"@)) {
        Some(t) => t,
        None => Seq::empty(),
    }
}

pub type LatestModel = Option<(Seq<char>, Map<Seq<char>, JsonNode>)>;

/// The latest recorded rate limits after one more line: a candidate line
/// replaces what is kept when nothing is, or when its time comes strictly
/// after the kept one (so of equal times the first is kept).
pub open spec fn observe_spec(st: LatestModel, line: Seq<char>) -> LatestModel {
    match parsed_json(line) {
        Ok(n) => if rate_candidate(n) {
            let ts = line_timestamp(n);
            let rate = sub_nodes(n, "/payload/rate_limits"@);
            match st {
                Some((prev, _)) => if key_lt(prev, ts) {
                    Some((ts, rate))
                } else {
                    st
                },
                None => Some((ts, rate)),
            }
        } else {
            st
        },
        Err(_) => st,
    }
}

pub open spec fn observe_lines(st: LatestModel, lines: Seq<Seq<char>>) -> LatestModel
    decreases lines.len(),
{
    if lines.len() == 0 {
        st
    } else {
        observe_spec(observe_lines(st, lines.drop_last()), lines.last())
    }
}

/// The latest rate limits recorded in the session logs read so far.
pub struct LatestRate {
    latest: Option<(String, serde_json::Value)>,
}

impl View for LatestRate {
    type V = LatestModel;

    closed spec fn view(&self) -> LatestModel {
        match self.latest {
            Some((t, v)) => Some((t@, json_nodes(v))),
            None => None,
        }
    }
}

impl LatestRate {
    /// Nothing recorded yet.
    pub fn new() -> (res: LatestRate)
        ensures
            res@ is None,
    {
        LatestRate { latest: None }
    }

    /// Takes one log line.
    pub fn observe_line(&mut self, line: &str)
        ensures
            final(self)@ == observe_spec(old(self)@, line@),
    {
        let json = match parse_json(line) {
            Ok(v) => v,
            Err(_) => return,
        };
        let ghost n = json_nodes(json);
        let is_event = match str_at(&json, "/type") {
            Some(t) => str_equal(t.as_str(), "event_msg"),
            None => false,
        };
        let is_token = match str_at(&json, "/payload/type") {
            Some(t) => str_equal(t.as_str(), "token_count"),
            None => false,
        };
        proof {
            assert(is_event == (crate::session::item_type(n) == "event_msg"@)) by {
                reveal_strlit("event_msg");
                if crate::json::node_str(node_at(n, "/type"@)) is None {
                    assert("event_msg"@.len() == 9);
                    assert(Seq::<char>::empty().len() == 0);
                }
            }
        }
        if !(is_event && is_token) {
            return;
        }
        let rate = match json_pointer(&json, "/payload/rate_limits") {
            Some(r) => json_clone(r),
            None => return,
        };
        let ts = match str_at(&json, "/timestamp") {
            Some(t) => t,
            None => String::new(),
        };
        let replace = match &self.latest {
            Some((prev, _)) => {
                let a = text_chars(prev.as_str());
                let b = text_chars(ts.as_str());
                compare_chars(&a, &b) == KeyOrder::Less
            },
            None => true,
        };
        if replace {
            self.latest = Some((ts, rate));
        }
    }

    /// Takes every line of a log, in order.
    pub fn observe_content(&mut self, content: &str)
        ensures
            final(self)@ == observe_lines(old(self)@, lines_of(content@)),
    {
        let lines = text_lines(content);
        let ghost all = lines@.map_values(|l: String| l@);
        let ghost start = self@;
        let mut i: usize = 0;
        assert(all.take(0) =~= Seq::<Seq<char>>::empty());
        while i < lines.len()
            invariant
                i <= lines@.len(),
                all == lines@.map_values(|l: String| l@),
                self@ == observe_lines(start, all.take(i as int)),
            decreases lines@.len() - i,
        {
            self.observe_line(lines[i].as_str());
            proof {
                assert(all.take(i + 1).drop_last() =~= all.take(i as int));
                assert(all.take(i + 1).last() == lines@[i as int]@);
            }
            i += 1;
        }
        assert(all.take(lines@.len() as int) =~= all);
    }

    /// The usage read from the latest recorded rate limits; `None` where none
    /// were recorded or they hold no used percentage.
    pub fn reading(&self) -> (res: Option<OfficialReading>)
        ensures
            match self@ {
                Some((_, rate)) => (res is Some <==> first_number_index(rate, local_used_paths(), 0) is Some)
                    && (res matches Some(r) ==> local_reading_matches(r, rate)),
                None => res is None,
            },
    {
        match &self.latest {
            Some((_, rate)) => local_reading(rate),
            None => None,
        }
    }
}

/// One log line against the rate limits kept so far: a line that is not a
/// `token_count` event, or records no rate limits, changes nothing; a
/// `token_count` event with rate limits and a time replaces what is kept when
/// nothing is or when its time comes strictly after the kept one, and a line
/// with the same time as the kept one leaves the first kept.
pub proof fn lemma_observe_line(st: LatestModel, line: Seq<char>, n: Map<Seq<char>, JsonNode>)
    requires
        parsed_json(line) == Ok::<Map<Seq<char>, JsonNode>, Seq<char>>(n),
    ensures
        node_str(node_at(n, "/type"@)) != Some("event_msg"@) ==> observe_spec(st, line) == st,
        node_str(node_at(n, "/payload/type"@)) != Some("token_count"@) ==> observe_spec(st, line) == st,
        node_at(n, "/payload/rate_limits"@) is None ==> observe_spec(st, line) == st,
        node_str(node_at(n, "/type"@)) == Some("event_msg"@) && node_str(node_at(n, "/payload/type"@)) == Some(
            "token_count"@,
        ) && node_at(n, "/payload/rate_limits"@) is Some ==> (node_str(node_at(n, "/timestamp"@)) matches Some(t)
            ==> (st matches Some((prev, _)) && prev == t ==> observe_spec(st, line) == st) && (st is None
            ==> observe_spec(st, line) == Some((t, sub_nodes(n, "/payload/rate_limits"@)))) && (st matches Some(
            (prev, _),
        ) && key_lt(prev, t) ==> observe_spec(st, line) == Some((t, sub_nodes(n, "/payload/rate_limits"@))))),
{
    reveal_strlit("event_msg");
    assert("event_msg"@.len() != Seq::<char>::empty().len());
    if let Some((prev, _)) = st {
        lemma_key_lt_irreflexive(prev);
    }
}

/// The rate limits kept after any lines carry the greatest time among the
/// candidate lines (in the order of `String`), and some are kept as soon as
/// one candidate was seen.
pub proof fn lemma_latest_is_greatest(lines: Seq<Seq<char>>, i: int)
    requires
        0 <= i < lines.len(),
        parsed_json(lines[i]) is Ok,
        rate_candidate(parsed_json(lines[i])->Ok_0),
    ensures
        observe_lines(None, lines) matches Some((t, _)) && !key_lt(t, line_timestamp(parsed_json(lines[i])->Ok_0)),
    decreases lines.len(),
{
    let last = lines.last();
    let before = lines.drop_last();
    let st = observe_lines(None, before);
    if i == lines.len() - 1 {
        match parsed_json(last) {
            Ok(n) => {
                let ts = line_timestamp(n);
                lemma_key_lt_irreflexive(ts);
            },
            Err(_) => {},
        }
    } else {
        assert(before[i] == lines[i]);
        lemma_latest_is_greatest(before, i);
        let ti = line_timestamp(parsed_json(lines[i])->Ok_0);
        match parsed_json(last) {
            Ok(n) => {
                if rate_candidate(n) {
                    let ts = line_timestamp(n);
                    let prev = st->Some_0.0;
                    if key_lt(prev, ts) && key_lt(ts, ti) {
                        lemma_key_lt_transitive(prev, ts, ti);
                    }
                }
            },
            Err(_) => {},
        }
    }
}

} // verus!
