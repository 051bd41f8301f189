//! One Codex session, as its JSONL log tells it.
use vstd::prelude::*;
use crate::date::Date;
use crate::json::{JsonNode, json_nodes, parsed_json, node_at, node_u64, node_str, opt_str_view, is_pointer, parse_json, json_pointer, json_as_str, str_at, u64_at};
use crate::text::{str_equal, lines_of, text_lines};

verus! {

/// What is known of one session log.
pub struct LocalSession {
    pub id: String,
    pub title: Option<String>,
    pub cwd: Option<String>,
    pub model: Option<String>,
    pub started_at: Option<String>,
    pub updated_at: Option<String>,
    pub total_tokens: u64,
    pub input_tokens: u64,
    pub cached_input_tokens: u64,
    pub output_tokens: u64,
    pub reasoning_output_tokens: u64,
    pub date: Option<Date>,
}

/// The model of a session: its texts as character sequences.
pub struct SessionModel {
    pub id: Seq<char>,
    pub title: Option<Seq<char>>,
    pub cwd: Option<Seq<char>>,
    pub model: Option<Seq<char>>,
    pub started_at: Option<Seq<char>>,
    pub updated_at: Option<Seq<char>>,
    pub total_tokens: u64,
    pub input_tokens: u64,
    pub cached_input_tokens: u64,
    pub output_tokens: u64,
    pub reasoning_output_tokens: u64,
    pub date: Option<Date>,
}

impl View for LocalSession {
    type V = SessionModel;

    open spec fn view(&self) -> SessionModel {
        SessionModel {
            id: self.id@,
            title: opt_str_view(self.title),
            cwd: opt_str_view(self.cwd),
            model: opt_str_view(self.model),
            started_at: opt_str_view(self.started_at),
            updated_at: opt_str_view(self.updated_at),
            total_tokens: self.total_tokens,
            input_tokens: self.input_tokens,
            cached_input_tokens: self.cached_input_tokens,
            output_tokens: self.output_tokens,
            reasoning_output_tokens: self.reasoning_output_tokens,
            date: self.date,
        }
    }
}

pub open spec fn or_opt<T>(a: Option<T>, b: Option<T>) -> Option<T> {
    match a {
        Some(x) => Some(x),
        None => b,
    }
}

pub open spec fn max_u64(a: u64, b: u64) -> u64 {
    if a >= b {
        a
    } else {
        b
    }
}

/// A token count, read under its snake_case name or else its camelCase one,
/// and 0 where neither holds a non-negative integer.
pub open spec fn token_count(nodes: Map<Seq<char>, JsonNode>, snake: Seq<char>, camel: Seq<char>) -> u64 {
    match or_opt(node_u64(node_at(nodes, snake)), node_u64(node_at(nodes, camel))) {
        Some(n) => n,
        None => 0,
    }
}

/// The `type` of a log line, empty where it has none.
pub open spec fn item_type(nodes: Map<Seq<char>, JsonNode>) -> Seq<char> {
    match node_str(node_at(nodes, "/type"@)) {
        Some(t) => t,
        None => Seq::empty(),
    }
}

pub open spec fn is_session_meta(nodes: Map<Seq<char>, JsonNode>) -> bool {
    item_type(nodes) == "session_meta"@
}

pub open spec fn is_token_count(nodes: Map<Seq<char>, JsonNode>) -> bool {
    item_type(nodes) == "event_msg"@ && node_str(node_at(nodes, "/payload/type"@)) == Some(
        "token_count"@,
    )
}

/// What a `session_meta` line sets: id (kept where the line has none), cwd,
/// model (or `model_slug` where there is no `model` key), title and start time
/// (from the payload, else from the line).
pub open spec fn apply_meta(s: SessionModel, n: Map<Seq<char>, JsonNode>) -> SessionModel {
    SessionModel {
        id: match node_str(node_at(n, "/payload/id"@)) {
            Some(i) => i,
            None => s.id,
        },
        cwd: node_str(node_at(n, "/payload/cwd"@)),
        model: if node_at(n, "/payload/model"@) is Some {
            node_str(node_at(n, "/payload/model"@))
        } else {
            node_str(node_at(n, "/payload/model_slug"@))
        },
        title: node_str(node_at(n, "/payload/title"@)),
        started_at: or_opt(
            node_str(node_at(n, "/payload/timestamp"@)),
            node_str(node_at(n, "/timestamp"@)),
        ),
        ..s
    }
}

/// What a `token_count` event sets: each count becomes the larger of the
/// count so far and the cumulative count the event reports; the update time
/// becomes the event's time, where it has one.
pub open spec fn apply_token_count(s: SessionModel, n: Map<Seq<char>, JsonNode>) -> SessionModel {
    SessionModel {
        total_tokens: max_u64(
            s.total_tokens,
            token_count(
                n,
                "/payload/info/total_token_usage/total_tokens"@,
                "/payload/info/total_token_usage/totalTokens"@,
            ),
        ),
        input_tokens: max_u64(
            s.input_tokens,
            token_count(
                n,
                "/payload/info/total_token_usage/input_tokens"@,
                "/payload/info/total_token_usage/inputTokens"@,
            ),
        ),
        cached_input_tokens: max_u64(
            s.cached_input_tokens,
            token_count(
                n,
                "/payload/info/total_token_usage/cached_input_tokens"@,
                "/payload/info/total_token_usage/cachedInputTokens"@,
            ),
        ),
        output_tokens: max_u64(
            s.output_tokens,
            token_count(
                n,
                "/payload/info/total_token_usage/output_tokens"@,
                "/payload/info/total_token_usage/outputTokens"@,
            ),
        ),
        reasoning_output_tokens: max_u64(
            s.reasoning_output_tokens,
            token_count(
                n,
                "/payload/info/total_token_usage/reasoning_output_tokens"@,
                "/payload/info/total_token_usage/reasoningOutputTokens"@,
            ),
        ),
        updated_at: or_opt(node_str(node_at(n, "/timestamp"@)), s.updated_at),
        ..s
    }
}

/// The effect of one parsed log line on a session.
pub open spec fn apply_event(s: SessionModel, n: Map<Seq<char>, JsonNode>) -> SessionModel {
    if is_session_meta(n) {
        apply_meta(s, n)
    } else if is_token_count(n) {
        apply_token_count(s, n)
    } else {
        s
    }
}

/// The effect of one line of text: lines that are not JSON change nothing.
pub open spec fn apply_text(s: SessionModel, line: Seq<char>) -> SessionModel {
    match parsed_json(line) {
        Ok(n) => apply_event(s, n),
        Err(_) => s,
    }
}

/// The effect of a sequence of lines, in order.
pub open spec fn apply_lines(s: SessionModel, lines: Seq<Seq<char>>) -> SessionModel
    decreases lines.len(),
{
    if lines.len() == 0 {
        s
    } else {
        apply_text(apply_lines(s, lines.drop_last()), lines.last())
    }
}

/// A fresh session, named after its log file.
pub open spec fn new_session_spec(id: Seq<char>, date: Option<Date>) -> SessionModel {
    SessionModel {
        id,
        title: None,
        cwd: None,
        model: None,
        started_at: None,
        updated_at: None,
        total_tokens: 0,
        input_tokens: 0,
        cached_input_tokens: 0,
        output_tokens: 0,
        reasoning_output_tokens: 0,
        date,
    }
}

fn read_token_count(json: &serde_json::Value, snake: &str, camel: &str) -> (res: u64)
    ensures
        res == token_count(json_nodes(*json), snake@, camel@),
{
    match u64_at(json, snake) {
        Some(n) => n,
        None => match u64_at(json, camel) {
            Some(n) => n,
            None => 0,
        },
    }
}

fn max(a: u64, b: u64) -> (res: u64)
    ensures
        res == max_u64(a, b),
{
    if a >= b {
        a
    } else {
        b
    }
}

impl LocalSession {
    /// A session with nothing read yet.
    pub fn new(id: String, date: Option<Date>) -> (res: LocalSession)
        ensures
            res@ == new_session_spec(id@, date),
    {
        LocalSession {
            id,
            title: None,
            cwd: None,
            model: None,
            started_at: None,
            updated_at: None,
            total_tokens: 0,
            input_tokens: 0,
            cached_input_tokens: 0,
            output_tokens: 0,
            reasoning_output_tokens: 0,
            date,
        }
    }

    /// Applies one parsed log line.
    pub fn apply_event(&mut self, json: &serde_json::Value)
        ensures
            final(self)@ == apply_event(old(self)@, json_nodes(*json)),
    {
        let ghost n = json_nodes(*json);
        let item = match str_at(json, "/type") {
            Some(t) => t,
            None => String::new(),
        };
        if str_equal(item.as_str(), "session_meta") {
            if let Some(id) = str_at(json, "/payload/id") {
                self.id = id;
            }
            self.cwd = str_at(json, "/payload/cwd");
            self.model = match json_pointer(json, "/payload/model") {
                Some(m) => {
                    proof {
                        crate::json::lemma_sub_nodes_subtree(n, "/payload/model"@);
                        let e = Seq::<char>::empty();
                        assert(is_pointer(e));
                        assert(node_at(json_nodes(*m), e) == node_at(n, "/payload/model"@ + e));
                        assert("/payload/model"@ + e =~= "/payload/model"@);
                    }
                    json_as_str(m)
                },
                None => str_at(json, "/payload/model_slug"),
            };
            self.title = str_at(json, "/payload/title");
            self.started_at = match str_at(json, "/payload/timestamp") {
                Some(t) => Some(t),
                None => str_at(json, "/timestamp"),
            };
        } else if str_equal(item.as_str(), "event_msg") && match str_at(json, "/payload/type") {
            Some(t) => str_equal(t.as_str(), "token_count"),
            None => false,
        } {
            let total = read_token_count(
                json,
                "/payload/info/total_token_usage/total_tokens",
                "/payload/info/total_token_usage/totalTokens",
            );
            let input = read_token_count(
                json,
                "/payload/info/total_token_usage/input_tokens",
                "/payload/info/total_token_usage/inputTokens",
            );
            let cached = read_token_count(
                json,
                "/payload/info/total_token_usage/cached_input_tokens",
                "/payload/info/total_token_usage/cachedInputTokens",
            );
            let output = read_token_count(
                json,
                "/payload/info/total_token_usage/output_tokens",
                "/payload/info/total_token_usage/outputTokens",
            );
            let reasoning = read_token_count(
                json,
                "/payload/info/total_token_usage/reasoning_output_tokens",
                "/payload/info/total_token_usage/reasoningOutputTokens",
            );
            self.total_tokens = max(self.total_tokens, total);
            self.input_tokens = max(self.input_tokens, input);
            self.cached_input_tokens = max(self.cached_input_tokens, cached);
            self.output_tokens = max(self.output_tokens, output);
            self.reasoning_output_tokens = max(self.reasoning_output_tokens, reasoning);
            if let Some(t) = str_at(json, "/timestamp") {
                self.updated_at = Some(t);
            }
        }
    }

    /// Applies every line of a session log, in order.
    pub fn apply_content(&mut self, content: &str)
        ensures
            final(self)@ == apply_lines(old(self)@, lines_of(content@)),
    {
        let lines = text_lines(content);
        let ghost all = lines@.map_values(|l: String| l@);
        let ghost start = self@;
        let mut i: usize = 0;
        assert(all.take(0) =~= Seq::<Seq<char>>::empty());
        while i < lines.len()
            invariant
                i <= lines@.len(),
                all == lines@.map_values(|l: String| l@),
                self@ == apply_lines(start, all.take(i as int)),
            decreases lines@.len() - i,
        {
            self.apply_line(lines[i].as_str());
            proof {
                assert(all.take(i + 1).drop_last() =~= all.take(i as int));
                assert(all.take(i + 1).last() == lines@[i as int]@);
            }
            i += 1;
        }
        assert(all.take(lines@.len() as int) =~= all);
    }

    /// Applies one line of a session log.
    pub fn apply_line(&mut self, line: &str)
        ensures
            final(self)@ == apply_text(old(self)@, line@),
    {
        if let Ok(json) = parse_json(line) {
            self.apply_event(&json);
        }
    }
}

/// A `token_count` event raises each count of its session to the cumulative
/// count it reports under the snake_case name where that is larger (the
/// cached input tokens too), and sets the update time to the event's time
/// where it has one; it keeps the id, the start time and the date.
pub proof fn lemma_token_count_event(s: SessionModel, n: Map<Seq<char>, JsonNode>)
    requires
        node_str(node_at(n, "/type"@)) == Some("event_msg"@),
        node_str(node_at(n, "/payload/type"@)) == Some("token_count"@),
    ensures
        node_str(node_at(n, "/timestamp"@)) matches Some(t) ==> apply_event(s, n).updated_at == Some(t),
        node_str(node_at(n, "/timestamp"@)) is None ==> apply_event(s, n).updated_at == s.updated_at,
        node_u64(node_at(n, "/payload/info/total_token_usage/total_tokens"@)) matches Some(c)
            ==> apply_event(s, n).total_tokens == if s.total_tokens >= c {
            s.total_tokens
        } else {
            c
        },
        node_u64(node_at(n, "/payload/info/total_token_usage/input_tokens"@)) matches Some(c)
            ==> apply_event(s, n).input_tokens == if s.input_tokens >= c {
            s.input_tokens
        } else {
            c
        },
        node_u64(node_at(n, "/payload/info/total_token_usage/cached_input_tokens"@)) matches Some(c)
            ==> apply_event(s, n).cached_input_tokens == if s.cached_input_tokens >= c {
            s.cached_input_tokens
        } else {
            c
        },
        node_u64(node_at(n, "/payload/info/total_token_usage/output_tokens"@)) matches Some(c)
            ==> apply_event(s, n).output_tokens == if s.output_tokens >= c {
            s.output_tokens
        } else {
            c
        },
        node_u64(node_at(n, "/payload/info/total_token_usage/reasoning_output_tokens"@)) matches Some(c)
            ==> apply_event(s, n).reasoning_output_tokens == if s.reasoning_output_tokens >= c {
            s.reasoning_output_tokens
        } else {
            c
        },
        apply_event(s, n).id == s.id,
        apply_event(s, n).started_at == s.started_at,
        apply_event(s, n).date == s.date,
{
    reveal_strlit("event_msg");
    reveal_strlit("session_meta");
    assert("event_msg"@[0] != "session_meta"@[0]);
}

/// A `session_meta` line sets the start time to the payload's timestamp,
/// else the line's, the id to the payload's where it has one, the model to
/// the payload's `model` where that key is present, else its `model_slug`,
/// and the working directory and title to the payload's; it keeps every
/// count, the update time and the date.
pub proof fn lemma_session_meta_line(s: SessionModel, n: Map<Seq<char>, JsonNode>)
    requires
        node_str(node_at(n, "/type"@)) == Some("session_meta"@),
    ensures
        node_str(node_at(n, "/payload/timestamp"@)) matches Some(t) ==> apply_event(s, n).started_at == Some(t),
        node_str(node_at(n, "/payload/timestamp"@)) is None ==> apply_event(s, n).started_at == node_str(
            node_at(n, "/timestamp"@),
        ),
        node_str(node_at(n, "/payload/id"@)) matches Some(i) ==> apply_event(s, n).id == i,
        node_str(node_at(n, "/payload/id"@)) is None ==> apply_event(s, n).id == s.id,
        node_at(n, "/payload/model"@) is Some ==> apply_event(s, n).model == node_str(node_at(n, "/payload/model"@)),
        node_at(n, "/payload/model"@) is None ==> apply_event(s, n).model == node_str(
            node_at(n, "/payload/model_slug"@),
        ),
        apply_event(s, n).cwd == node_str(node_at(n, "/payload/cwd"@)),
        apply_event(s, n).title == node_str(node_at(n, "/payload/title"@)),
        apply_event(s, n).updated_at == s.updated_at,
        apply_event(s, n).total_tokens == s.total_tokens,
        apply_event(s, n).input_tokens == s.input_tokens,
        apply_event(s, n).cached_input_tokens == s.cached_input_tokens,
        apply_event(s, n).output_tokens == s.output_tokens,
        apply_event(s, n).reasoning_output_tokens == s.reasoning_output_tokens,
        apply_event(s, n).date == s.date,
{
}

/// Reading more lines never lowers a session's token counts, and never
/// changes the date it is filed under.
pub proof fn lemma_counts_never_decrease(s: SessionModel, lines: Seq<Seq<char>>)
    ensures
        apply_lines(s, lines).total_tokens >= s.total_tokens,
        apply_lines(s, lines).input_tokens >= s.input_tokens,
        apply_lines(s, lines).cached_input_tokens >= s.cached_input_tokens,
        apply_lines(s, lines).output_tokens >= s.output_tokens,
        apply_lines(s, lines).reasoning_output_tokens >= s.reasoning_output_tokens,
        apply_lines(s, lines).date == s.date,
    decreases lines.len(),
{
    if lines.len() > 0 {
        lemma_counts_never_decrease(s, lines.drop_last());
    }
}

/// Two sessions agree on what the usage buckets read of them: every token
/// count, and the date.
pub open spec fn same_counts(a: SessionModel, b: SessionModel) -> bool {
    &&& a.total_tokens == b.total_tokens
    &&& a.input_tokens == b.input_tokens
    &&& a.cached_input_tokens == b.cached_input_tokens
    &&& a.output_tokens == b.output_tokens
    &&& a.reasoning_output_tokens == b.reasoning_output_tokens
    &&& a.date == b.date
}

proof fn lemma_apply_lines_append(s: SessionModel, a: Seq<Seq<char>>, b: Seq<Seq<char>>)
    ensures
        apply_lines(s, a + b) == apply_lines(apply_lines(s, a), b),
    decreases b.len(),
{
    if b.len() == 0 {
        assert(a + b =~= a);
    } else {
        assert((a + b).drop_last() =~= a + b.drop_last());
        assert((a + b).last() == b.last());
        lemma_apply_lines_append(s, a, b.drop_last());
    }
}

proof fn lemma_line_counted(s: SessionModel, lines: Seq<Seq<char>>, j: int)
    requires
        0 <= j < lines.len(),
    ensures
        same_counts(apply_text(apply_lines(s, lines), lines[j]), apply_lines(s, lines)),
{
    let head = lines.take(j + 1);
    let tail = lines.skip(j + 1);
    assert(lines =~= head + tail);
    lemma_apply_lines_append(s, head, tail);
    let mid = apply_lines(s, head);
    assert(head.drop_last() =~= lines.take(j));
    assert(head.last() == lines[j]);
    lemma_counts_never_decrease(mid, tail);
}

/// Reading a line again, or a line that is not JSON, changes no count and
/// not the date: counts are maxima of cumulative values.
pub proof fn lemma_repeated_or_junk_line_keeps_counts(s: SessionModel, lines: Seq<Seq<char>>, line: Seq<char>)
    requires
        parsed_json(line) is Err || lines.contains(line),
    ensures
        same_counts(apply_lines(s, lines.push(line)), apply_lines(s, lines)),
{
    assert(lines.push(line).drop_last() =~= lines);
    assert(lines.push(line).last() == line);
    if parsed_json(line) is Ok {
        let j = choose|j: int| 0 <= j < lines.len() && lines[j] == line;
        lemma_line_counted(s, lines, j);
    }
}

} // verus!
