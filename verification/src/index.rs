//! The sessions read from a directory of logs, keyed by log path and kept in
//! key order (the order in which they are listed).
use vstd::prelude::*;
use crate::date::{
    Date, date_from_parts_spec, date_is_valid, extract_date_from_path, path_segments, portable_path,
};
use crate::session::{LocalSession, SessionModel, apply_lines, lemma_counts_never_decrease, new_session_spec};
use crate::text::{KeyOrder, compare_chars, key_lt, lemma_key_lt_irreflexive, lemma_key_lt_transitive, lines_of, text_chars};

verus! {

/// One session and the key (its log path) it is filed under.
pub struct SessionEntry {
    pub key: String,
    key_chars: Vec<char>,
    pub session: LocalSession,
}

/// Sessions by key, in increasing key order.
pub struct SessionIndex {
    entries: Vec<SessionEntry>,
}

pub type IndexModel = Seq<(Seq<char>, SessionModel)>;

/// Keys strictly increase along the sequence.
pub open spec fn keys_sorted(s: IndexModel) -> bool {
    forall|i: int, j: int| 0 <= i < j < s.len() ==> key_lt(#[trigger] s[i].0, #[trigger] s[j].0)
}

/// Where a key is filed, if it is.
pub open spec fn find_key(s: IndexModel, k: Seq<char>) -> Option<int> {
    if exists|i: int| 0 <= i < s.len() && #[trigger] s[i].0 == k {
        Some(choose|i: int| 0 <= i < s.len() && #[trigger] s[i].0 == k)
    } else {
        None
    }
}

/// How many keys come before `k`: where a new key goes.
pub open spec fn count_less(s: IndexModel, k: Seq<char>) -> int
    decreases s.len(),
{
    if s.len() == 0 {
        0
    } else {
        count_less(s.drop_last(), k) + if key_lt(s.last().0, k) {
            1int
        } else {
            0int
        }
    }
}

/// The index after one log file was read: its lines are applied to the
/// session already filed under its key, or to a fresh session filed in order.
pub open spec fn ingest_spec(
    s: IndexModel,
    key: Seq<char>,
    date: Option<Date>,
    lines: Seq<Seq<char>>,
) -> IndexModel {
    match find_key(s, key) {
        Some(i) => s.update(i, (key, apply_lines(s[i].1, lines))),
        None => s.insert(count_less(s, key), (key, apply_lines(new_session_spec(key, date), lines))),
    }
}

proof fn lemma_count_less(s: IndexModel, k: Seq<char>, p: int)
    requires
        0 <= p <= s.len(),
        forall|j: int| 0 <= j < p ==> key_lt(#[trigger] s[j].0, k),
        forall|j: int| p <= j < s.len() ==> !key_lt(#[trigger] s[j].0, k),
    ensures
        count_less(s, k) == p,
    decreases s.len(),
{
    if s.len() > 0 {
        let t = s.drop_last();
        if p == s.len() {
            assert(key_lt(s[s.len() - 1].0, k));
            lemma_count_less(t, k, p - 1);
        } else {
            assert(!key_lt(s[s.len() - 1].0, k));
            lemma_count_less(t, k, p);
        }
    }
}

/// Where a new key goes lies within the index.
pub proof fn lemma_count_less_bounds(s: IndexModel, k: Seq<char>)
    ensures
        0 <= count_less(s, k) <= s.len(),
    decreases s.len(),
{
    if s.len() > 0 {
        lemma_count_less_bounds(s.drop_last(), k);
    }
}

/// Reading a log files its session under the log's key. A key not yet filed
/// adds one session, dated as the log, and moves the sessions after it up by
/// one; a key already filed keeps the number of sessions and the session's
/// date, and changes no other session.
pub proof fn lemma_ingest_files_under_key(s: IndexModel, key: Seq<char>, date: Option<Date>, lines: Seq<Seq<char>>)
    ensures
        find_key(s, key) is None ==> ({
            let r = ingest_spec(s, key, date, lines);
            let p = count_less(s, key);
            &&& r.len() == s.len() + 1
            &&& r[p].0 == key
            &&& r[p].1.date == date
            &&& forall|j: int| 0 <= j < p ==> #[trigger] r[j] == s[j]
            &&& forall|j: int| p < j < r.len() ==> #[trigger] r[j] == s[j - 1]
        }),
        find_key(s, key) matches Some(i) ==> ({
            let r = ingest_spec(s, key, date, lines);
            &&& r.len() == s.len()
            &&& r[i].0 == key
            &&& r[i].1.date == s[i].1.date
            &&& forall|j: int| 0 <= j < s.len() && j != i ==> #[trigger] r[j] == s[j]
        }),
{
    match find_key(s, key) {
        Some(i) => {
            lemma_counts_never_decrease(s[i].1, lines);
        },
        None => {
            lemma_count_less_bounds(s, key);
            lemma_counts_never_decrease(new_session_spec(key, date), lines);
        },
    }
}

impl View for SessionIndex {
    type V = IndexModel;

    closed spec fn view(&self) -> IndexModel {
        self.entries@.map_values(|e: SessionEntry| (e.key@, e.session@))
    }
}

impl SessionIndex {
    /// The index holds each key's characters beside it, and keys in order.
    pub closed spec fn wf(&self) -> bool {
        &&& forall|i: int| 0 <= i < self.entries@.len() ==> (#[trigger] self.entries@[i]).key_chars@
            == self.entries@[i].key@
        &&& keys_sorted(self@)
    }

    /// An empty index.
    pub fn new() -> (res: SessionIndex)
        ensures
            res.wf(),
            res@ == Seq::<(Seq<char>, SessionModel)>::empty(),
    {
        let res = SessionIndex { entries: Vec::new() };
        assert(res@ =~= Seq::<(Seq<char>, SessionModel)>::empty());
        res
    }

    /// The number of sessions.
    pub fn len(&self) -> (res: usize)
        ensures
            res == self@.len(),
    {
        self.entries.len()
    }

    /// The session at a position in key order.
    pub fn session(&self, i: usize) -> (res: &LocalSession)
        requires
            i < self@.len(),
        ensures
            res@ == self@[i as int].1,
    {
        &self.entries[i].session
    }

    /// The key at a position in key order.
    pub fn key(&self, i: usize) -> (res: &String)
        requires
            i < self@.len(),
        ensures
            res@ == self@[i as int].0,
    {
        &self.entries[i].key
    }

    /// Finds a key by binary search: `Ok` with its position, or `Err` with the
    /// position where it belongs.
    fn locate(&self, k: &Vec<char>) -> (res: Result<usize, usize>)
        requires
            self.wf(),
        ensures
            match res {
                Ok(i) => i < self@.len() && self@[i as int].0 == k@,
                Err(p) => p <= self@.len() && (forall|j: int| 0 <= j < p ==> key_lt(#[trigger] self@[j].0, k@))
                    && (forall|j: int| p <= j < self@.len() ==> key_lt(k@, #[trigger] self@[j].0)),
            },
    {
        let mut lo: usize = 0;
        let mut hi: usize = self.entries.len();
        while lo < hi
            invariant
                self.wf(),
                lo <= hi <= self@.len(),
                forall|j: int| 0 <= j < lo ==> key_lt(#[trigger] self@[j].0, k@),
                forall|j: int| hi <= j < self@.len() ==> key_lt(k@, #[trigger] self@[j].0),
            decreases hi - lo,
        {
            let mid = lo + (hi - lo) / 2;
            let c = compare_chars(&self.entries[mid].key_chars, k);
            assert(self.entries@[mid as int].key_chars@ == self@[mid as int].0);
            match c {
                KeyOrder::Equal => {
                    return Ok(mid);
                },
                KeyOrder::Less => {
                    assert forall|j: int| 0 <= j < mid + 1 implies key_lt(#[trigger] self@[j].0, k@) by {
                        if j < mid {
                            lemma_key_lt_transitive(self@[j].0, self@[mid as int].0, k@);
                        }
                    }
                    lo = mid + 1;
                },
                KeyOrder::Greater => {
                    assert forall|j: int| mid <= j < self@.len() implies key_lt(k@, #[trigger] self@[j].0) by {
                        if j > mid {
                            lemma_key_lt_transitive(k@, self@[mid as int].0, self@[j].0);
                        }
                    }
                    hi = mid;
                },
            }
        }
        Err(lo)
    }

    /// Reads one log file into the index: its lines are applied to the
    /// session filed under `key`, which is made (named after the key and dated
    /// `date`) where there is none.
    pub fn ingest_file(&mut self, key: String, date: Option<Date>, content: &str)
        requires
            old(self).wf(),
        ensures
            final(self).wf(),
            keys_sorted(final(self)@),
            final(self)@ == ingest_spec(old(self)@, key@, date, lines_of(content@)),
    {
        let ghost s = self@;
        let ghost lines = lines_of(content@);
        let kc = text_chars(key.as_str());
        match self.locate(&kc) {
            Ok(i) => {
                proof {
                    assert forall|j: int| 0 <= j < s.len() && s[j].0 == key@ implies j == i by {
                        if j < i {
                            assert(key_lt(s[j].0, s[i as int].0));
                            lemma_key_lt_irreflexive(key@);
                        } else if j > i {
                            assert(key_lt(s[i as int].0, s[j].0));
                            lemma_key_lt_irreflexive(key@);
                        }
                    }
                    assert(find_key(s, key@) == Some(i as int));
                }
                let mut e = self.entries.remove(i);
                e.session.apply_content(content);
                self.entries.insert(i, e);
                proof {
                    assert(self@ =~= s.update(i as int, (key@, apply_lines(s[i as int].1, lines))));
                    assert forall|a: int| 0 <= a < self.entries@.len() implies (
                    #[trigger] self.entries@[a]).key_chars@ == self.entries@[a].key@ by {
                        if a != i {
                            assert(self.entries@[a] == old(self).entries@[a]);
                        }
                    }
                }
            },
            Err(p) => {
                proof {
                    assert forall|j: int| 0 <= j < s.len() implies #[trigger] s[j].0 != key@ by {
                        lemma_key_lt_irreflexive(key@);
                    }
                    assert(find_key(s, key@) is None);
                    assert forall|j: int| p <= j < s.len() implies !key_lt(#[trigger] s[j].0, key@) by {
                        if key_lt(s[j].0, key@) {
                            lemma_key_lt_transitive(key@, s[j].0, key@);
                            lemma_key_lt_irreflexive(key@);
                        }
                    }
                    lemma_count_less(s, key@, p as int);
                }
                let mut session = LocalSession::new(key.clone(), date);
                session.apply_content(content);
                self.entries.insert(p, SessionEntry { key, key_chars: kc, session });
                proof {
                    let v = (key@, apply_lines(new_session_spec(key@, date), lines));
                    assert(self@ =~= s.insert(p as int, v));
                    assert forall|a: int, b: int| 0 <= a < b < self@.len() implies key_lt(
                        #[trigger] self@[a].0,
                        #[trigger] self@[b].0,
                    ) by {
                        if b < p {
                        } else if b == p {
                        } else if a < p {
                            lemma_key_lt_transitive(self@[a].0, key@, self@[b].0);
                        } else if a == p {
                        } else {
                        }
                    }
                }
            },
        }
    }

    /// Reads the log file at `path` into the index, dated by the path: the
    /// same as `ingest_file` under the path as key, with the date that the
    /// path names, if any. Returns that date: on a portable path, the first
    /// year/month/day triple among its segments.
    pub fn ingest_log(&mut self, path: &str, content: &str) -> (date: Option<Date>)
        requires
            old(self).wf(),
        ensures
            final(self).wf(),
            keys_sorted(final(self)@),
            final(self)@ == ingest_spec(old(self)@, path@, date, lines_of(content@)),
            date matches Some(d) ==> date_is_valid(d) && 2000 <= d.year <= 2100,
            portable_path(path@) ==> date == date_from_parts_spec(path_segments(path@), 0),
    {
        let date = extract_date_from_path(path);
        let key = String::from_str(path);
        self.ingest_file(key, date, content);
        date
    }
}

} // verus!
