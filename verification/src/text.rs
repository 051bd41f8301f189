//! Text helpers and notification keys.
use vstd::prelude::*;

verus! {

/// Compares two texts.
pub fn str_equal(a: &str, b: &str) -> (res: bool)
    ensures
        res == (a@ == b@),
{
    let x = String::from_str(a);
    let y = String::from_str(b);
    x == y
}

/// A text split at each newline (as `str::split('\n')` splits it).
pub open spec fn split_newline(p: Seq<char>) -> Seq<Seq<char>>
    decreases p.len(),
{
    if p.len() == 0 {
        seq![Seq::<char>::empty()]
    } else {
        let rest = split_newline(p.drop_last());
        if p.last() == '\n' {
            rest.push(Seq::<char>::empty())
        } else {
            rest.update(rest.len() - 1, rest.last().push(p.last()))
        }
    }
}

/// A line without the carriage return of a `\r\n` ending.
pub open spec fn strip_cr(l: Seq<char>) -> Seq<char> {
    if l.len() > 0 && l.last() == '\r' {
        l.drop_last()
    } else {
        l
    }
}

/// The lines of a text, as `str::lines` documents them: split at `\n` or
/// `\r\n` (not included in the lines), the final line ending optional, so a
/// text that ends with a line ending gives no empty last line.
pub open spec fn lines_of(text: Seq<char>) -> Seq<Seq<char>> {
    let parts = split_newline(text);
    let k = parts.len() - 1;
    let ended = Seq::new(k as nat, |i: int| strip_cr(parts[i]));
    if parts[k].len() > 0 {
        ended.push(parts[k])
    } else {
        ended
    }
}

/// `str::lines`, each line copied into a `String`.
/// Claims, as the documentation of `str::lines` says: the lines are
/// `lines_of` the text.
#[verifier::external_body]
pub fn text_lines(text: &str) -> (res: Vec<String>)
    ensures
        res@.map_values(|l: String| l@) == lines_of(text@),
{
    text.lines().map(String::from).collect()
}

/// `str::chars`, collected. Claims: the characters are the text's own.
#[verifier::external_body]
pub fn text_chars(text: &str) -> (res: Vec<char>)
    ensures
        res@ == text@,
{
    text.chars().collect()
}

/// The order of texts by their characters' code points, shorter first where
/// one is a prefix of the other (the order of `String`).
pub open spec fn key_lt(a: Seq<char>, b: Seq<char>) -> bool
    decreases a.len(),
{
    if a.len() == 0 {
        b.len() > 0
    } else if b.len() == 0 {
        false
    } else if a[0] != b[0] {
        (a[0] as int) < (b[0] as int)
    } else {
        key_lt(a.drop_first(), b.drop_first())
    }
}

pub proof fn lemma_key_lt_irreflexive(a: Seq<char>)
    ensures
        !key_lt(a, a),
    decreases a.len(),
{
    if a.len() > 0 {
        lemma_key_lt_irreflexive(a.drop_first());
    }
}

pub proof fn lemma_key_lt_transitive(a: Seq<char>, b: Seq<char>, c: Seq<char>)
    requires
        key_lt(a, b),
        key_lt(b, c),
    ensures
        key_lt(a, c),
    decreases a.len(),
{
    if a.len() > 0 && b.len() > 0 && c.len() > 0 {
        if a[0] == b[0] && b[0] == c[0] {
            lemma_key_lt_transitive(a.drop_first(), b.drop_first(), c.drop_first());
        }
    }
}

pub proof fn lemma_key_lt_total(a: Seq<char>, b: Seq<char>)
    requires
        a != b,
    ensures
        key_lt(a, b) || key_lt(b, a),
    decreases a.len(),
{
    if a.len() > 0 && b.len() > 0 && a[0] == b[0] {
        if a.drop_first() == b.drop_first() {
            assert(a =~= seq![a[0]] + a.drop_first());
            assert(b =~= seq![b[0]] + b.drop_first());
        }
        lemma_key_lt_total(a.drop_first(), b.drop_first());
    } else if a.len() == 0 && b.len() == 0 {
        assert(a =~= b);
    } else if a.len() > 0 && b.len() > 0 {
        assert((a[0] as int) != (b[0] as int));
    }
}

/// The outcome of comparing two keys.
#[derive(PartialEq, Eq, Structural, Clone, Copy, Debug)]
pub enum KeyOrder {
    Less,
    Equal,
    Greater,
}

/// Compares two character sequences in `key_lt` order.
pub fn compare_chars(a: &Vec<char>, b: &Vec<char>) -> (res: KeyOrder)
    ensures
        (res == KeyOrder::Less) == key_lt(a@, b@),
        (res == KeyOrder::Equal) == (a@ == b@),
        (res == KeyOrder::Greater) == key_lt(b@, a@),
{
    proof {
        lemma_key_lt_irreflexive(a@);
        if a@ != b@ {
            lemma_key_lt_total(a@, b@);
            if key_lt(a@, b@) && key_lt(b@, a@) {
                lemma_key_lt_transitive(a@, b@, a@);
            }
        }
    }
    let mut i: usize = 0;
    assert(a@.skip(0) =~= a@);
    assert(b@.skip(0) =~= b@);
    while i < a.len() && i < b.len()
        invariant
            i <= a@.len(),
            i <= b@.len(),
            key_lt(a@, b@) == key_lt(a@.skip(i as int), b@.skip(i as int)),
            key_lt(b@, a@) == key_lt(b@.skip(i as int), a@.skip(i as int)),
            (a@ == b@) == (a@.skip(i as int) == b@.skip(i as int)),
        decreases a@.len() - i,
    {
        let x = a[i];
        let y = b[i];
        if x != y {
            proof {
                assert(a@.skip(i as int)[0] == x);
                assert(b@.skip(i as int)[0] == y);
                assert(a@.skip(i as int) != b@.skip(i as int));
            }
            if x < y {
                return KeyOrder::Less;
            } else {
                return KeyOrder::Greater;
            }
        }
        proof {
            let sa = a@.skip(i as int);
            let sb = b@.skip(i as int);
            assert(sa.drop_first() =~= a@.skip(i + 1));
            assert(sb.drop_first() =~= b@.skip(i + 1));
            if sa.drop_first() == sb.drop_first() {
                assert(sa =~= seq![sa[0]] + sa.drop_first());
                assert(sb =~= seq![sb[0]] + sb.drop_first());
            }
        }
        i += 1;
    }
    if i == a.len() && i == b.len() {
        proof {
            assert(a@.skip(i as int) =~= b@.skip(i as int));
        }
        KeyOrder::Equal
    } else if i == a.len() {
        proof {
            assert(a@.skip(i as int).len() == 0);
            assert(a@.skip(i as int) != b@.skip(i as int));
        }
        KeyOrder::Less
    } else {
        proof {
            assert(b@.skip(i as int).len() == 0);
            assert(a@.skip(i as int) != b@.skip(i as int));
        }
        KeyOrder::Greater
    }
}

/// The key under which one notification is remembered: the limit and the
/// moment it resets, joined by a colon.
pub open spec fn dedupe_key_spec(limit_id: Seq<char>, resets_at: Seq<char>) -> Seq<char> {
    limit_id + seq![':'] + resets_at
}

/// Builds the key that identifies one notification for a rate limit
/// (`"{limit_id}:{resets_at}"`).
pub fn dedupe_key(limit_id: &str, resets_at: &str) -> (res: String)
    ensures
        res@ == dedupe_key_spec(limit_id@, resets_at@),
        res@.len() == limit_id@.len() + 1 + resets_at@.len(),
        res@.subrange(0, limit_id@.len() as int) =~= limit_id@,
        res@[limit_id@.len() as int] == ':',
        res@.subrange(limit_id@.len() + 1int, res@.len() as int) =~= resets_at@,
{
    let mut key = String::from_str(limit_id);
    let sep = ":";
    proof {
        reveal_strlit(":");
    }
    key.append(sep);
    key.append(resets_at);
    key
}

/// Two notifications share a key only when they are about the same limit and
/// the same reset, for limit names without a colon.
pub proof fn lemma_dedupe_key_injective(
    limit_a: Seq<char>,
    resets_a: Seq<char>,
    limit_b: Seq<char>,
    resets_b: Seq<char>,
)
    requires
        !limit_a.contains(':'),
        !limit_b.contains(':'),
        dedupe_key_spec(limit_a, resets_a) == dedupe_key_spec(limit_b, resets_b),
    ensures
        limit_a == limit_b,
        resets_a == resets_b,
{
    let ka = dedupe_key_spec(limit_a, resets_a);
    let kb = dedupe_key_spec(limit_b, resets_b);
    let pa = limit_a + seq![':'];
    let pb = limit_b + seq![':'];
    assert(ka == pa + resets_a);
    assert(kb == pb + resets_b);
    if limit_a.len() < limit_b.len() {
        let j = limit_a.len() as int;
        assert(pa[j] == ':');
        assert(ka[j] == pa[j]);
        assert(pb[j] == limit_b[j]);
        assert(kb[j] == pb[j]);
        assert(limit_b.contains(':'));
    } else if limit_b.len() < limit_a.len() {
        let j = limit_b.len() as int;
        assert(pb[j] == ':');
        assert(kb[j] == pb[j]);
        assert(pa[j] == limit_a[j]);
        assert(ka[j] == pa[j]);
        assert(limit_a.contains(':'));
    } else {
        assert(pa.len() == pb.len());
        assert forall|i: int| 0 <= i < pa.len() implies pa[i] == pb[i] by {
            assert(ka[i] == pa[i]);
            assert(kb[i] == pb[i]);
        }
        assert(pa =~= pb);
        assert forall|i: int| 0 <= i < limit_a.len() implies limit_a[i] == limit_b[i] by {
            assert(pa[i] == limit_a[i]);
            assert(pb[i] == limit_b[i]);
        }
        assert(limit_a =~= limit_b);
        assert(ka.len() == kb.len());
        assert(resets_a.len() == resets_b.len());
        assert forall|i: int| 0 <= i < resets_a.len() implies resets_a[i] == resets_b[i] by {
            let j = pa.len() + i;
            assert(ka[j] == kb[j]);
            assert(ka[j] == resets_a[i]);
            assert(kb[j] == resets_b[i]);
        }
        assert(resets_a =~= resets_b);
    }
}

} // verus!
