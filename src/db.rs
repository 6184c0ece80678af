use vstd::prelude::*;
use vstd::multiset::Multiset;
use vstd::utf8::encode_utf8;

verus! {

/// Where the history lives unless the caller names another file.
pub const DEFAULT_DB_PATH: &'static str = "clipboard.db";

/// Creates the history table when it is missing; running it again changes nothing.
pub const CREATE_TABLE_SQL: &'static str = "CREATE TABLE IF NOT EXISTS clipboard (id INTEGER PRIMARY KEY, content TEXT NOT NULL, type TEXT NOT NULL DEFAULT 'text', created_at TEXT NOT NULL)";

/// Appends one text entry; the store stamps it with its own clock.
pub const INSERT_SQL: &'static str = "INSERT INTO clipboard (content, type, created_at) VALUES (?1, 'text', datetime('now'))";

/// Reads every entry as `(id, content, created_at)`; the order is settled by `newest_first`.
pub const SELECT_SQL: &'static str = "SELECT id, content, created_at FROM clipboard";

/// The one location that every store operation touches.
pub struct DbConfig {
    pub path: String,
    pub encrypt: bool,
}

impl DbConfig {
    /// A configuration for the history file at `path`, stored in clear.
    pub fn new(path: String) -> (r: DbConfig)
        ensures
            r.path@ == path@,
            !r.encrypt,
    {
        DbConfig { path, encrypt: false }
    }
}

/// One recorded clipboard value.
pub struct ClipboardItem {
    pub id: i32,
    pub content: String,
    pub created_at: String,
    pub favorite: bool,
}

/// The failures of the store, one per operation.
#[derive(Clone, Copy, Debug, PartialEq, Eq, Structural)]
pub enum StoreError {
    /// The location cannot be opened or the table cannot be created.
    StorageInitError,
    /// An append did not go through.
    StorageWriteError,
    /// The history could not be read.
    StorageReadError,
}

impl ClipboardItem {
    /// The entry made of one row `(id, content, created_at)` of the table.
    pub fn from_row(id: i32, content: String, created_at: String) -> (r: ClipboardItem)
        ensures
            r.id == id,
            r.content@ == content@,
            r.created_at@ == created_at@,
            !r.favorite,
    {
        ClipboardItem { id, content, created_at, favorite: false }
    }
}

/// The stamp of an entry as the table compares it: the UTF-8 bytes of its text.
pub open spec fn stamp(e: ClipboardItem) -> Seq<u8> {
    encode_utf8(e.created_at@)
}

/// `a` comes after `b` in byte-wise lexicographic order.
pub open spec fn text_after(a: Seq<u8>, b: Seq<u8>) -> bool
    decreases a.len(),
{
    if a.len() == 0 {
        false
    } else if b.len() == 0 {
        true
    } else if a[0] != b[0] {
        a[0] > b[0]
    } else {
        text_after(a.drop_first(), b.drop_first())
    }
}

/// `a` is listed before `b`: it is more recent, or as recent and with a larger id.
pub open spec fn listed_before(a: ClipboardItem, b: ClipboardItem) -> bool {
    text_after(stamp(a), stamp(b)) || (stamp(a) == stamp(b) && a.id > b.id)
}

/// `e` put into the newest-first list `s`, ahead of the first entry it is listed before.
pub open spec fn insert_listed(s: Seq<ClipboardItem>, e: ClipboardItem) -> Seq<ClipboardItem>
    decreases s.len(),
{
    if s.len() == 0 || listed_before(e, s[0]) {
        seq![e] + s
    } else {
        seq![s[0]] + insert_listed(s.drop_first(), e)
    }
}

/// The listing of `rows`: each row, in the order read, put into place.
pub open spec fn listing(rows: Seq<ClipboardItem>) -> Seq<ClipboardItem>
    decreases rows.len(),
{
    if rows.len() == 0 {
        seq![]
    } else {
        insert_listed(listing(rows.drop_last()), rows.last())
    }
}

/// The rows were appended one at a time by a single writer on the store's clock:
/// each id is larger than the one before and no stamp is older than the one before.
pub open spec fn appended_in_order(rows: Seq<ClipboardItem>) -> bool {
    forall|i: int|
        0 <= i < rows.len() - 1 ==> {
            &&& #[trigger] rows[i].id < rows[i + 1].id
            &&& !text_after(stamp(rows[i]), stamp(rows[i + 1]))
        }
}

proof fn lemma_text_after_suffix(a: Seq<u8>, b: Seq<u8>, i: int)
    requires
        0 <= i <= a.len(),
        i <= b.len(),
        a.subrange(0, i) == b.subrange(0, i),
    ensures
        text_after(a, b) == text_after(a.subrange(i, a.len() as int), b.subrange(i, b.len() as int)),
    decreases i,
{
    if i > 0 {
        assert(a[0] == a.subrange(0, i)[0]);
        assert(b[0] == b.subrange(0, i)[0]);
        assert(a.drop_first().subrange(0, i - 1) =~= a.subrange(0, i).drop_first());
        assert(b.drop_first().subrange(0, i - 1) =~= b.subrange(0, i).drop_first());
        lemma_text_after_suffix(a.drop_first(), b.drop_first(), i - 1);
        assert(a.drop_first().subrange(i - 1, a.len() - 1) =~= a.subrange(i, a.len() as int));
        assert(b.drop_first().subrange(i - 1, b.len() - 1) =~= b.subrange(i, b.len() as int));
    } else {
        assert(a.subrange(0, a.len() as int) =~= a);
        assert(b.subrange(0, b.len() as int) =~= b);
    }
}

proof fn lemma_text_trichotomy(a: Seq<u8>, b: Seq<u8>)
    ensures
        a == b || text_after(a, b) || text_after(b, a),
        !(text_after(a, b) && text_after(b, a)),
    decreases a.len(),
{
    if a.len() > 0 && b.len() > 0 && a[0] == b[0] {
        lemma_text_trichotomy(a.drop_first(), b.drop_first());
        if a.drop_first() == b.drop_first() {
            assert(a =~= seq![a[0]] + a.drop_first());
            assert(b =~= seq![b[0]] + b.drop_first());
        }
    } else if a.len() == 0 && b.len() == 0 {
        assert(a =~= b);
    }
}

/// Compares two byte strings lexicographically: true when `a` comes after `b`.
fn bytes_after(a: &[u8], b: &[u8]) -> (r: bool)
    ensures
        r == text_after(a@, b@),
{
    let n: usize = if a.len() < b.len() { a.len() } else { b.len() };
    let mut i: usize = 0;
    while i < n
        invariant
            n <= a@.len(),
            n <= b@.len(),
            n == a@.len() || n == b@.len(),
            0 <= i <= n,
            a@.subrange(0, i as int) == b@.subrange(0, i as int),
        decreases n - i,
    {
        if a[i] != b[i] {
            proof {
                lemma_text_after_suffix(a@, b@, i as int);
                let sa = a@.subrange(i as int, a@.len() as int);
                let sb = b@.subrange(i as int, b@.len() as int);
                assert(sa[0] == a@[i as int]);
                assert(sb[0] == b@[i as int]);
            }
            return a[i] > b[i];
        }
        proof {
            assert(a@.subrange(0, i + 1) =~= a@.subrange(0, i as int).push(a@[i as int]));
            assert(b@.subrange(0, i + 1) =~= b@.subrange(0, i as int).push(b@[i as int]));
        }
        i = i + 1;
    }
    proof {
        lemma_text_after_suffix(a@, b@, i as int);
    }
    a.len() > b.len()
}

/// True when `a` is listed before `b` in the history.
fn is_listed_before(a: &ClipboardItem, b: &ClipboardItem) -> (r: bool)
    ensures
        r == listed_before(*a, *b),
{
    let sa = a.created_at.as_str().as_bytes();
    let sb = b.created_at.as_str().as_bytes();
    if bytes_after(sa, sb) {
        true
    } else if bytes_after(sb, sa) {
        false
    } else {
        proof {
            lemma_text_trichotomy(sa@, sb@);
        }
        a.id > b.id
    }
}

proof fn lemma_insert_at(s: Seq<ClipboardItem>, e: ClipboardItem, p: int)
    requires
        0 <= p <= s.len(),
        forall|k: int| 0 <= k < p ==> !listed_before(e, #[trigger] s[k]),
        p == s.len() || listed_before(e, s[p]),
    ensures
        insert_listed(s, e) == s.insert(p, e),
    decreases p,
{
    if p == 0 {
        assert(s.insert(0, e) =~= seq![e] + s);
    } else {
        assert(!listed_before(e, s[0]));
        assert forall|k: int| 0 <= k < p - 1 implies !listed_before(e, #[trigger] s.drop_first()[k]) by {
            assert(s.drop_first()[k] == s[k + 1]);
        }
        if p < s.len() {
            assert(s.drop_first()[p - 1] == s[p]);
        }
        lemma_insert_at(s.drop_first(), e, p - 1);
        assert(s.insert(p, e) =~= seq![s[0]] + s.drop_first().insert(p - 1, e));
    }
}

/// No entry is listed after one that it should be listed before.
pub open spec fn in_listing_order(s: Seq<ClipboardItem>) -> bool {
    forall|k: int| 0 <= k < s.len() - 1 ==> !listed_before(#[trigger] s[k + 1], s[k])
}

proof fn lemma_insert_keeps_order(s: Seq<ClipboardItem>, e: ClipboardItem)
    requires
        in_listing_order(s),
    ensures
        in_listing_order(insert_listed(s, e)),
    decreases s.len(),
{
    if s.len() > 0 {
        lemma_text_trichotomy(stamp(e), stamp(s[0]));
        if !listed_before(e, s[0]) {
            let rest = s.drop_first();
            assert(in_listing_order(rest)) by {
                assert forall|k: int| 0 <= k < rest.len() - 1 implies !listed_before(#[trigger] rest[k + 1], rest[k]) by {
                    assert(s[k + 1 + 1] == rest[k + 1]);
                }
            }
            lemma_insert_keeps_order(rest, e);
            let t = insert_listed(rest, e);
            let u = seq![s[0]] + t;
            if rest.len() > 0 && !listed_before(e, rest[0]) {
                assert(t[0] == rest[0]);
                assert(s[1] == rest[0]);
            } else {
                assert(t[0] == e);
            }
            assert forall|k: int| 0 <= k < u.len() - 1 implies !listed_before(#[trigger] u[k + 1], u[k]) by {
                if k > 0 {
                    assert(u[k + 1] == t[k] && u[k] == t[k - 1]);
                    assert(!listed_before(t[(k - 1) + 1], t[k - 1]));
                } else {
                    assert(u[0] == s[0] && u[1] == t[0]);
                    if s.len() > 1 {
                        assert(!listed_before(s[0int + 1], s[0]));
                    }
                }
            }
        } else {
            let u = seq![e] + s;
            assert forall|k: int| 0 <= k < u.len() - 1 implies !listed_before(#[trigger] u[k + 1], u[k]) by {
                if k > 0 {
                    assert(u[k + 1] == s[k] && u[k] == s[k - 1]);
                    assert(!listed_before(s[(k - 1) + 1], s[k - 1]));
                } else {
                    assert(u[0] == e && u[1] == s[0]);
                }
            }
        }
    }
}

/// The position at which `insert_listed` puts `e`.
spec fn insert_position(s: Seq<ClipboardItem>, e: ClipboardItem) -> int
    decreases s.len(),
{
    if s.len() == 0 || listed_before(e, s[0]) {
        0
    } else {
        1 + insert_position(s.drop_first(), e)
    }
}

proof fn lemma_insert_is_seq_insert(s: Seq<ClipboardItem>, e: ClipboardItem)
    ensures
        0 <= insert_position(s, e) <= s.len(),
        insert_listed(s, e) == s.insert(insert_position(s, e), e),
    decreases s.len(),
{
    if s.len() == 0 || listed_before(e, s[0]) {
        assert(s.insert(0, e) =~= seq![e] + s);
    } else {
        lemma_insert_is_seq_insert(s.drop_first(), e);
        let p = insert_position(s.drop_first(), e);
        assert(s.insert(p + 1, e) =~= seq![s[0]] + s.drop_first().insert(p, e));
    }
}

proof fn lemma_listing_permutes(rows: Seq<ClipboardItem>)
    ensures
        listing(rows).to_multiset() == rows.to_multiset(),
        in_listing_order(listing(rows)),
    decreases rows.len(),
{
    broadcast use vstd::seq_lib::group_to_multiset_ensures;
    if rows.len() > 0 {
        let before = rows.drop_last();
        let e = rows.last();
        lemma_listing_permutes(before);
        let s = listing(before);
        lemma_insert_keeps_order(s, e);
        lemma_insert_is_seq_insert(s, e);
        let p = insert_position(s, e);
        let t = insert_listed(s, e);
        assert(t.remove(p) =~= s);
        assert(t[p] == e);
        assert(rows =~= before.push(e));
        assert(t.to_multiset().remove(e) == s.to_multiset());
        assert(t.to_multiset().count(e) > 0) by {
            assert(t.contains(e));
        }
        assert(t.to_multiset() =~= s.to_multiset().insert(e));
    } else {
        assert(rows.to_multiset() =~= Multiset::empty());
        assert(listing(rows).to_multiset() =~= Multiset::empty());
    }
}

/// Puts the rows read from the table in listing order: most recent first, and
/// among equally recent entries the larger id first.
pub fn newest_first(rows: Vec<ClipboardItem>) -> (r: Vec<ClipboardItem>)
    ensures
        r@ == listing(rows@),
        in_listing_order(r@),
        r@.to_multiset() == rows@.to_multiset(),
{
    let mut rows = rows;
    let ghost all = rows@;
    let mut out: Vec<ClipboardItem> = Vec::new();
    let n: usize = rows.len();
    let mut j: usize = 0;
    while j < n
        invariant
            n == all.len(),
            0 <= j <= n,
            rows@ == all.subrange(j as int, n as int),
            out@ == listing(all.subrange(0, j as int)),
        decreases n - j,
    {
        let e = rows.remove(0);
        proof {
            assert(e == all[j as int]);
        }
        let mut p: usize = 0;
        while p < out.len()
            invariant
                0 <= p <= out@.len(),
                forall|k: int| 0 <= k < p ==> !listed_before(e, #[trigger] out@[k]),
            ensures
                0 <= p <= out@.len(),
                forall|k: int| 0 <= k < p ==> !listed_before(e, #[trigger] out@[k]),
                p == out@.len() || listed_before(e, out@[p as int]),
            decreases out@.len() - p,
        {
            if is_listed_before(&e, &out[p]) {
                break;
            }
            p = p + 1;
        }
        proof {
            lemma_insert_at(out@, e, p as int);
            assert(all.subrange(0, j + 1).drop_last() =~= all.subrange(0, j as int));
            assert(rows@ =~= all.subrange(j + 1, n as int));
        }
        out.insert(p, e);
        j = j + 1;
    }
    proof {
        assert(all.subrange(0, n as int) =~= all);
        lemma_listing_permutes(all);
    }
    out
}

/// Entries appended one after another by a single writer are listed in the
/// reverse of the order in which they were appended: the last one first.
pub proof fn lemma_listing_reverses_appends(rows: Seq<ClipboardItem>)
    requires
        appended_in_order(rows),
    ensures
        listing(rows) == rows.reverse(),
    decreases rows.len(),
{
    if rows.len() > 0 {
        let before = rows.drop_last();
        assert(appended_in_order(before)) by {
            assert forall|i: int| 0 <= i < before.len() - 1 implies #[trigger] before[i].id < before[i + 1].id
                && !text_after(stamp(before[i]), stamp(before[i + 1])) by {
                assert(rows[i].id < rows[i + 1].id);
            }
        }
        lemma_listing_reverses_appends(before);
        let e = rows.last();
        if before.len() > 0 {
            let n = rows.len() - 1;
            assert(before.reverse()[0] == rows[n - 1]);
            assert(rows[n - 1].id < rows[n - 1 + 1].id);
            lemma_text_trichotomy(stamp(e), stamp(rows[n - 1]));
            assert(listed_before(e, before.reverse()[0]));
        }
        assert(seq![e] + before.reverse() =~= rows.reverse());
    }
}

/// After an append, reading the history gives the new entry first, with the
/// content that was appended, as long as nothing was appended after it.
pub proof fn lemma_append_then_read(rows: Seq<ClipboardItem>, e: ClipboardItem)
    requires
        appended_in_order(rows.push(e)),
    ensures
        listing(rows.push(e)).len() == rows.len() + 1,
        listing(rows.push(e))[0] == e,
        listing(rows.push(e))[0].content@ == e.content@,
{
    lemma_listing_reverses_appends(rows.push(e));
}

} // verus!
