//! The saved sessions of a directory.

use crate::agent::kv::identity;
use crate::agent::kv::identity::{clip_title, decode_title_trailer, title_from_text};
use crate::agent::kv::store::Record;
use crate::text;
use crate::text::chars_of;
use vstd::prelude::*;
use vstd::string::*;

verus! {

/// What can go wrong with a saved session.
#[derive(Debug)]
pub enum KvError {
    InvalidPrefix,
    Missing { prefix: String },
    Ambiguous { prefix: String },
    NothingToSave,
    IdentityMismatch,
    Io(String),
}

/// The first `n` characters of `s`, or all of it.
pub open spec fn at_most(s: Seq<char>, n: int) -> Seq<char> {
    if s.len() <= n {
        s
    } else {
        s.take(n)
    }
}

/// The first `n` characters of `s`, or all of it.
pub fn shortened(s: &str, n: usize) -> (r: String)
    ensures
        r@ == at_most(s@, n as int),
{
    let cs = chars_of(s);
    if cs.len() <= n {
        String::from_str(s)
    } else {
        let r = text::substring(cs.as_slice(), 0, n);
        assert(r@ =~= s@.take(n as int));
        r
    }
}

impl KvError {
    /// The error in words.
    pub open spec fn words(self) -> Seq<char> {
        match self {
            KvError::InvalidPrefix => "invalid session SHA prefix"@,
            KvError::Missing { prefix } => "no saved session matches "@ + at_most(prefix@, 40),
            KvError::Ambiguous { prefix } => "session prefix "@ + at_most(prefix@, 40)
                + " is ambiguous"@,
            KvError::NothingToSave => "nothing to save"@,
            KvError::IdentityMismatch => "cached session identity does not match file name"@,
            KvError::Io(m) => m@,
        }
    }

    /// The error in words.
    pub fn message(&self) -> (r: String)
        ensures
            r@ == self.words(),
    {
        match self {
            KvError::InvalidPrefix => String::from_str("invalid session SHA prefix"),
            KvError::Missing { prefix } => {
                let p = shortened(prefix.as_str(), 40);
                let mut r = String::from_str("no saved session matches ");
                r.append(p.as_str());
                r
            },
            KvError::Ambiguous { prefix } => {
                let p = shortened(prefix.as_str(), 40);
                let mut r = String::from_str("session prefix ");
                r.append(p.as_str());
                r.append(" is ambiguous");
                r
            },
            KvError::NothingToSave => String::from_str("nothing to save"),
            KvError::IdentityMismatch => String::from_str(
                "cached session identity does not match file name",
            ),
            KvError::Io(m) => m.clone(),
        }
    }
}

/// The title of a saved session: the one that is saved behind it, or the one
/// that its text makes.
pub open spec fn title_of(record: Record) -> Seq<char> {
    match identity::trailer_title(record.trailer@) {
        Some(t) if record.header.titled => t,
        _ => identity::text_title(record.text@, 0),
    }
}

/// The title of a saved session.
pub fn session_title(record: &Record) -> (r: String)
    ensures
        r@ == title_of(*record),
{
    if record.header.titled {
        if let Some(title) = decode_title_trailer(record.trailer.as_slice()) {
            return clip_title(title.as_str(), 0);
        }
    }
    title_from_text(record.text.as_slice(), 0)
}

/// A saved session in a list.
#[derive(Debug)]
pub struct ListedSession {
    pub sha: String,
    pub title: String,
    pub last_used: u64,
    pub created_at: u64,
    pub tokens: u32,
    pub file_size: u64,
    pub stripped: bool,
}

/// [`ListedSession`] as plain values.
pub struct Listed {
    pub sha: Seq<char>,
    pub title: Seq<char>,
    pub last_used: u64,
    pub created_at: u64,
    pub tokens: u32,
    pub file_size: u64,
    pub stripped: bool,
}

impl View for ListedSession {
    type V = Listed;

    open spec fn view(&self) -> Listed {
        Listed {
            sha: self.sha@,
            title: self.title@,
            last_used: self.last_used,
            created_at: self.created_at,
            tokens: self.tokens,
            file_size: self.file_size,
            stripped: self.stripped,
        }
    }
}

pub open spec fn listed_views(v: Seq<ListedSession>) -> Seq<Listed> {
    Seq::new(v.len(), |i: int| v[i]@)
}

/// A file of the directory, as far as it could be read: the hash that its name
/// is, and the session in it.
#[derive(Debug)]
pub struct Entry {
    pub sha: Option<String>,
    pub record: Option<Record>,
    pub file_size: u64,
}

/// A file holds a session of the model.
pub open spec fn is_session(e: Entry, model_id: u8) -> bool {
    e.sha is Some && e.record is Some && e.record->0.header.model_id == model_id
}

/// The session of a file as it is listed.
pub open spec fn listed(e: Entry) -> Listed {
    let h = e.record->0.header;
    Listed {
        sha: e.sha->0@,
        title: title_of(e.record->0),
        last_used: h.last_used,
        created_at: h.created_at,
        tokens: h.tokens,
        file_size: e.file_size,
        stripped: h.payload_bytes == 0,
    }
}

/// The sessions of the first `n` files, in the order of the files.
pub open spec fn sessions_of(entries: Seq<Entry>, model_id: u8, n: nat) -> Seq<Listed>
    decreases n,
{
    if n == 0 || n > entries.len() {
        seq![]
    } else {
        let before = sessions_of(entries, model_id, (n - 1) as nat);
        if is_session(entries[n - 1], model_id) {
            before.push(listed(entries[n - 1]))
        } else {
            before
        }
    }
}

/// When a session was last used, or begun where it was not used.
pub open spec fn recency(s: Listed) -> u64 {
    if s.last_used != 0 {
        s.last_used
    } else {
        s.created_at
    }
}

/// `a` comes before `b` in the order of their characters from `i` on.
pub open spec fn text_before(a: Seq<char>, b: Seq<char>, i: int) -> bool
    decreases a.len() - i,
{
    if i < 0 || i >= b.len() {
        false
    } else if i >= a.len() {
        true
    } else if a[i] != b[i] {
        a[i] < b[i]
    } else {
        text_before(a, b, i + 1)
    }
}

/// `a` is listed before `b`: it was used later, or at the same time and its
/// hash comes first.
pub open spec fn listed_before(a: Listed, b: Listed) -> bool {
    recency(a) > recency(b) || (recency(a) == recency(b) && text_before(a.sha, b.sha, 0))
}

/// The first place from `i` on whose session is listed behind `x`.
pub open spec fn place_for(s: Seq<Listed>, x: Listed, i: int) -> int
    decreases s.len() - i,
{
    if i < 0 || i >= s.len() || listed_before(x, s[i]) {
        i
    } else {
        place_for(s, x, i + 1)
    }
}

/// The first `n` sessions in the order of the list; of sessions that the order
/// does not tell apart, the earlier one stays first.
pub open spec fn sorted(s: Seq<Listed>, n: nat) -> Seq<Listed>
    decreases n,
{
    if n == 0 || n > s.len() {
        seq![]
    } else {
        let before = sorted(s, (n - 1) as nat);
        before.insert(place_for(before, s[n - 1], 0), s[n - 1])
    }
}

/// The list of the sessions of a directory.
pub open spec fn listing(entries: Seq<Entry>, model_id: u8) -> Seq<Listed> {
    let s = sessions_of(entries, model_id, entries.len());
    sorted(s, s.len())
}

fn recency_of(s: &ListedSession) -> (r: u64)
    ensures
        r == recency(s@),
{
    if s.last_used != 0 {
        s.last_used
    } else {
        s.created_at
    }
}

fn is_text_before(a: &str, b: &str) -> (r: bool)
    ensures
        r == text_before(a@, b@, 0),
{
    let x = chars_of(a);
    let y = chars_of(b);
    let mut i: usize = 0;
    while i < x.len() && i < y.len()
        invariant
            i <= x@.len(),
            i <= y@.len(),
            x@ == a@,
            y@ == b@,
            text_before(a@, b@, 0) == text_before(a@, b@, i as int),
        decreases x@.len() - i,
    {
        if x[i] != y[i] {
            return x[i] < y[i];
        }
        i += 1;
    }
    i < y.len()
}

fn is_before(a: &ListedSession, b: &ListedSession) -> (r: bool)
    ensures
        r == listed_before(a@, b@),
{
    let x: u64 = recency_of(a);
    let y: u64 = recency_of(b);
    x > y || (x == y && is_text_before(a.sha.as_str(), b.sha.as_str()))
}

proof fn lemma_place(s: Seq<Listed>, x: Listed, i: int)
    requires
        0 <= i <= s.len(),
    ensures
        i <= place_for(s, x, i) <= s.len(),
        forall|k: int| i <= k < place_for(s, x, i) ==> !listed_before(x, #[trigger] s[k]),
        place_for(s, x, i) < s.len() ==> listed_before(x, s[place_for(s, x, i)]),
    decreases s.len() - i,
{
    if i < s.len() && !listed_before(x, s[i]) {
        lemma_place(s, x, i + 1);
    }
}

fn insert_session(list: &mut Vec<ListedSession>, x: ListedSession)
    ensures
        listed_views(final(list)@) == listed_views(old(list)@).insert(
            place_for(listed_views(old(list)@), x@, 0),
            x@,
        ),
{
    let n: usize = list.len();
    let ghost views = listed_views(list@);
    let mut i: usize = 0;
    while i < n && !is_before(&x, &list[i])
        invariant
            n == list@.len(),
            i <= n,
            *list == *old(list),
            views == listed_views(list@),
            place_for(views, x@, 0) == place_for(views, x@, i as int),
        decreases n - i,
    {
        assert(views[i as int] == list@[i as int]@);
        i += 1;
    }
    proof {
        if i < n {
            assert(views[i as int] == list@[i as int]@);
        }
    }
    let ghost v = x@;
    list.insert(i, x);
    assert(listed_views(list@) =~= views.insert(i as int, v));
}

fn listed_session(e: &Entry, sha: &String, record: &Record) -> (r: ListedSession)
    requires
        e.sha == Some(*sha),
        e.record == Some(*record),
    ensures
        r@ == listed(*e),
{
    ListedSession {
        sha: sha.clone(),
        title: session_title(record),
        last_used: record.header.last_used,
        created_at: record.header.created_at,
        tokens: record.header.tokens,
        file_size: e.file_size,
        stripped: record.header.payload_bytes == 0,
    }
}

proof fn lemma_sorted_prefix(s: Seq<Listed>, x: Listed, n: nat)
    requires
        n <= s.len(),
    ensures
        sorted(s.push(x), n) == sorted(s, n),
    decreases n,
{
    if n > 0 {
        lemma_sorted_prefix(s, x, (n - 1) as nat);
        assert(s.push(x)[n - 1] == s[n - 1]);
    }
}

/// The sessions of a directory, the last used first.
pub fn list(entries: &[Entry], model_id: u8) -> (r: Vec<ListedSession>)
    ensures
        listed_views(r@) == listing(entries@, model_id),
{
    let n: usize = entries.len();
    let mut out: Vec<ListedSession> = Vec::new();
    let mut i: usize = 0;
    assert(listed_views(out@) =~= Seq::<Listed>::empty());
    while i < n
        invariant
            n == entries@.len(),
            i <= n,
            ({
                let s = sessions_of(entries@, model_id, i as nat);
                listed_views(out@) == sorted(s, s.len())
            }),
        decreases n - i,
    {
        let e = &entries[i];
        let ghost s = sessions_of(entries@, model_id, i as nat);
        if let (Some(sha), Some(record)) = (&e.sha, &e.record) {
            if record.header.model_id == model_id {
                let x = listed_session(e, sha, record);
                proof {
                    lemma_sorted_prefix(s, x@, s.len());
                    assert(s.push(x@).len() == s.len() + 1);
                }
                insert_session(&mut out, x);
            }
        }
        i += 1;
    }
    out
}

proof fn lemma_text_order(a: Seq<char>, b: Seq<char>, i: int)
    requires
        0 <= i,
        i <= a.len() || i <= b.len(),
    ensures
        !(text_before(a, b, i) && text_before(b, a, i)),
    decreases a.len() - i,
{
    if i < a.len() && i < b.len() && a[i] == b[i] {
        lemma_text_order(a, b, i + 1);
    }
}

proof fn lemma_text_transitive(a: Seq<char>, b: Seq<char>, c: Seq<char>, i: int)
    requires
        0 <= i,
        !text_before(b, a, i),
        !text_before(c, b, i),
    ensures
        !text_before(c, a, i),
    decreases a.len() - i,
{
    if i < a.len() && i < c.len() {
        if i >= b.len() {
            assert(text_before(b, a, i));
        } else if a[i] == b[i] && b[i] == c[i] {
            lemma_text_transitive(a, b, c, i + 1);
        }
    } else if i < a.len() && i >= c.len() {
        if i < b.len() {
            assert(text_before(c, b, i));
        }
    }
}

/// `s` is in the order of the list.
pub open spec fn in_order(s: Seq<Listed>) -> bool {
    forall|i: int, j: int|
        0 <= i < j < s.len() ==> !listed_before(#[trigger] s[j], #[trigger] s[i])
}

proof fn lemma_order(a: Listed, b: Listed, c: Listed)
    ensures
        !listed_before(b, a) && !listed_before(c, b) ==> !listed_before(c, a),
        listed_before(a, b) ==> !listed_before(b, a),
{
    lemma_text_order(a.sha, b.sha, 0);
    if !listed_before(b, a) && !listed_before(c, b) && recency(a) == recency(b) && recency(b)
        == recency(c) {
        lemma_text_transitive(a.sha, b.sha, c.sha, 0);
    }
}

proof fn lemma_insert_keeps_order(s: Seq<Listed>, x: Listed)
    requires
        in_order(s),
    ensures
        in_order(s.insert(place_for(s, x, 0), x)),
{
    lemma_place(s, x, 0);
    let p = place_for(s, x, 0);
    let t = s.insert(p, x);
    assert forall|i: int, j: int| 0 <= i < j < t.len() implies !listed_before(
        #[trigger] t[j],
        #[trigger] t[i],
    ) by {
        if i == p {
            // x stands in front of the session that was at p, and so of all behind it.
            assert(t[j] == s[j - 1]);
            lemma_order(x, s[p], x);
            if j - 1 > p {
                assert(!listed_before(s[j - 1], s[p]));
            } else {
                lemma_order(x, s[p], s[p]);
            }
            lemma_order(x, s[p], s[j - 1]);
        } else if j == p {
            assert(t[i] == s[i]);
        } else {
            let a = if i < p {
                i
            } else {
                i - 1
            };
            let b = if j < p {
                j
            } else {
                j - 1
            };
            assert(t[i] == s[a]);
            assert(t[j] == s[b]);
        }
    }
}

proof fn lemma_sorted_is_in_order(s: Seq<Listed>, n: nat)
    ensures
        in_order(sorted(s, n)),
    decreases n,
{
    if 0 < n <= s.len() {
        lemma_sorted_is_in_order(s, (n - 1) as nat);
        lemma_insert_keeps_order(sorted(s, (n - 1) as nat), s[n - 1]);
    }
}

proof fn lemma_sorted_keeps_all(s: Seq<Listed>, n: nat)
    requires
        n <= s.len(),
    ensures
        sorted(s, n).to_multiset() == s.take(n as int).to_multiset(),
    decreases n,
{
    broadcast use vstd::seq_lib::group_to_multiset_ensures;

    if n == 0 {
        assert(s.take(0) =~= Seq::<Listed>::empty());
    } else {
        lemma_sorted_keeps_all(s, (n - 1) as nat);
        let before = sorted(s, (n - 1) as nat);
        lemma_place(before, s[n - 1], 0);
        assert(s.take(n as int) =~= s.take(n - 1).push(s[n - 1]));
    }
}

/// The list holds every session of the model once, and nothing else, the last
/// used first and those used at the same time in the order of their hashes.
pub proof fn law_listing_is_in_order(entries: Seq<Entry>, model_id: u8)
    ensures
        in_order(listing(entries, model_id)),
        listing(entries, model_id).to_multiset() == sessions_of(
            entries,
            model_id,
            entries.len(),
        ).to_multiset(),
{
    let s = sessions_of(entries, model_id, entries.len());
    lemma_sorted_is_in_order(s, s.len());
    lemma_sorted_keeps_all(s, s.len());
    assert(s.take(s.len() as int) =~= s);
}

pub open spec fn is_hex(c: char) -> bool {
    ('0' <= c && c <= '9') || ('a' <= c && c <= 'f') || ('A' <= c && c <= 'F')
}

/// A prefix of a hash: one to 40 hexadecimal digits.
pub open spec fn is_prefix(s: Seq<char>) -> bool {
    1 <= s.len() <= 40 && forall|i: int| 0 <= i < s.len() ==> is_hex(#[trigger] s[i])
}

fn valid_prefix(cs: &[char]) -> (r: bool)
    ensures
        r == is_prefix(cs@),
{
    let n: usize = cs.len();
    if n < 1 || n > 40 {
        return false;
    }
    let mut i: usize = 0;
    while i < n
        invariant
            n == cs@.len(),
            i <= n,
            forall|k: int| 0 <= k < i ==> is_hex(#[trigger] cs@[k]),
        decreases n - i,
    {
        let c = cs[i];
        if !(('0' <= c && c <= '9') || ('a' <= c && c <= 'f') || ('A' <= c && c <= 'F')) {
            assert(!is_hex(cs@[i as int]));
            return false;
        }
        i += 1;
    }
    true
}

/// The small letter of a capital of ASCII; any other character itself.
pub open spec fn small(c: char) -> char {
    if 'A' <= c && c <= 'Z' {
        (c as u32 + 32) as char
    } else {
        c
    }
}

/// `sha` begins with `prefix`, whose capitals count as small letters.
pub open spec fn begins(sha: Seq<char>, prefix: Seq<char>) -> bool {
    prefix.len() <= sha.len() && forall|i: int|
        0 <= i < prefix.len() ==> small(prefix[i]) == #[trigger] sha[i]
}

fn small_char(c: char) -> (r: char)
    requires
        is_hex(c),
    ensures
        r == small(c),
{
    match c {
        'A' => 'a',
        'B' => 'b',
        'C' => 'c',
        'D' => 'd',
        'E' => 'e',
        'F' => 'f',
        _ => c,
    }
}

fn sha_begins(sha: &str, prefix: &[char]) -> (r: bool)
    requires
        is_prefix(prefix@),
    ensures
        r == begins(sha@, prefix@),
{
    let cs = chars_of(sha);
    let n: usize = prefix.len();
    if n > cs.len() {
        return false;
    }
    let mut i: usize = 0;
    while i < n
        invariant
            n == prefix@.len(),
            n <= cs@.len(),
            cs@ == sha@,
            is_prefix(prefix@),
            i <= n,
            forall|k: int| 0 <= k < i ==> small(prefix@[k]) == #[trigger] sha@[k],
        decreases n - i,
    {
        assert(is_hex(prefix@[i as int]));
        if small_char(prefix[i]) != cs[i] {
            assert(small(prefix@[i as int]) != sha@[i as int]);
            return false;
        }
        i += 1;
    }
    true
}

/// The session of a file is asked for.
pub open spec fn is_asked_for(e: Entry, prefix: Seq<char>, model_id: u8) -> bool {
    is_session(e, model_id) && begins(e.sha->0@, prefix)
}

/// `r` is what a search for `prefix` comes to: the one session whose hash
/// begins with it.
pub open spec fn found(
    entries: Seq<Entry>,
    prefix: Seq<char>,
    model_id: u8,
    r: Result<usize, KvError>,
) -> bool {
    if !is_prefix(prefix) {
        r matches Err(e) && e is InvalidPrefix
    } else {
        match r {
            Ok(k) => {
                &&& k < entries.len()
                &&& is_asked_for(entries[k as int], prefix, model_id)
                &&& forall|j: int|
                    0 <= j < entries.len() && is_asked_for(#[trigger] entries[j], prefix, model_id)
                        ==> j == k
            },
            Err(KvError::Missing { prefix: p }) => p@ == prefix && forall|j: int|
                0 <= j < entries.len() ==> !is_asked_for(#[trigger] entries[j], prefix, model_id),
            Err(KvError::Ambiguous { prefix: p }) => p@ == prefix && exists|i: int, j: int|
                0 <= i < j < entries.len() && is_asked_for(#[trigger] entries[i], prefix, model_id)
                    && is_asked_for(#[trigger] entries[j], prefix, model_id),
            _ => false,
        }
    }
}

/// The place of the one session whose hash begins with `prefix`.
pub fn find(entries: &[Entry], prefix: &str, model_id: u8) -> (r: Result<usize, KvError>)
    ensures
        found(entries@, prefix@, model_id, r),
{
    let p = chars_of(prefix);
    if !valid_prefix(p.as_slice()) {
        return Err(KvError::InvalidPrefix);
    }
    let n: usize = entries.len();
    let mut first: Option<usize> = None;
    let mut i: usize = 0;
    while i < n
        invariant
            n == entries@.len(),
            i <= n,
            p@ == prefix@,
            is_prefix(prefix@),
            match first {
                None => forall|j: int|
                    0 <= j < i ==> !is_asked_for(#[trigger] entries@[j], prefix@, model_id),
                Some(k) => k < i && is_asked_for(entries@[k as int], prefix@, model_id) && forall|
                    j: int,
                |
                    0 <= j < i && is_asked_for(#[trigger] entries@[j], prefix@, model_id) ==> j
                        == k,
            },
        decreases n - i,
    {
        let e = &entries[i];
        if let (Some(sha), Some(record)) = (&e.sha, &e.record) {
            if record.header.model_id == model_id && sha_begins(sha.as_str(), p.as_slice()) {
                assert(is_asked_for(entries@[i as int], prefix@, model_id));
                match first {
                    None => {
                        first = Some(i);
                    },
                    Some(k) => {
                        assert(is_asked_for(entries@[k as int], prefix@, model_id));
                        return Err(KvError::Ambiguous { prefix: String::from_str(prefix) });
                    },
                }
            }
        }
        i += 1;
    }
    match first {
        Some(k) => Ok(k),
        None => Err(KvError::Missing { prefix: String::from_str(prefix) }),
    }
}

} // verus!
