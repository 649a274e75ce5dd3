//! Front matter of a post: a TOML table between `+++` lines at its start.
use vstd::prelude::*;
use vstd::string::{StrSliceExecFns, StringExecFns};
use crate::text::chars_of;

verus! {

broadcast use vstd::string::group_string_axioms;

/// A TOML table as the library reads it: each key, with its value where
/// that is a string.
pub type Entries = Seq<(Seq<char>, Option<Seq<char>>)>;

/// What `toml` makes of `src` as a document: `Err` with the error's
/// message where it is no TOML; `Ok(None)` where the value is not a table;
/// else `Ok(Some(entries))`, each key with its value where that is a string.
pub uninterp spec fn toml_document(src: Seq<char>) -> Result<Option<Entries>, Seq<char>>;

/// The entries' view.
pub open spec fn entries_view(v: Seq<(String, Option<String>)>) -> Entries {
    v.map_values(
        |e: (String, Option<String>)|
            (
                e.0@,
                match e.1 {
                    Some(s) => Some(s@),
                    None => None,
                },
            ),
    )
}

/// No key occurs twice.
pub open spec fn keys_distinct(e: Entries) -> bool {
    forall|i: int, j: int| 0 <= i < j < e.len() ==> (#[trigger] e[i]).0 != (#[trigger] e[j]).0
}

/// Parses `src` with `str::parse::<toml::Value>`. The result is named
/// `toml_document(src)`; since a table is a map, its keys are distinct.
/// Which texts are TOML, and what their values are, is not stated.
#[verifier::external_body]
pub(crate) fn parse_toml(src: &str) -> (r: Result<Option<Vec<(String, Option<String>)>>, String>)
    ensures
        match r {
            Ok(Some(v)) => toml_document(src@) == Ok::<Option<Entries>, Seq<char>>(
                Some(entries_view(v@)),
            ) && keys_distinct(entries_view(v@)),
            Ok(None) => toml_document(src@) == Ok::<Option<Entries>, Seq<char>>(None),
            Err(m) => toml_document(src@) == Err::<Option<Entries>, Seq<char>>(m@),
        },
{
    match src.parse::<toml::Value>() {
        Ok(toml::Value::Table(t)) => Ok(
            Some(
                t.into_iter().map(
                    |(k, v)|
                        match v {
                            toml::Value::String(s) => (k, Some(s)),
                            _ => (k, None),
                        },
                ).collect(),
            ),
        ),
        Ok(_) => Ok(None),
        Err(e) => Err(e.to_string()),
    }
}

/// What `chrono` parses of `text` as a date and time with an offset (as
/// `str::parse::<DateTime<Local>>` does): the instant, as seconds and
/// nanoseconds since the Unix epoch, or `None`.
pub uninterp spec fn instant_of(text: Seq<char>) -> Option<(i64, u32)>;

/// Calls `str::parse::<chrono::DateTime<chrono::Local>>` and gives the
/// instant parsed. The result is named `instant_of(text)`; which texts
/// chrono accepts is not stated. The local offset that the value carries
/// depends on the machine and is left to the caller.
#[verifier::external_body]
fn parse_instant(text: &str) -> (r: Option<(i64, u32)>)
    ensures
        r == instant_of(text@),
{
    text.parse::<chrono::DateTime<chrono::Local>>().ok().map(
        |d| (d.timestamp(), d.timestamp_subsec_nanos()),
    )
}

/// An instant: seconds and nanoseconds since the Unix epoch.
#[derive(Clone, Copy, Debug, PartialEq, Eq)]
pub struct Timestamp {
    pub seconds: i64,
    pub nanos: u32,
}

/// The value of `name` in `e` (its first entry), or `None`.
pub open spec fn entry_of(e: Entries, name: Seq<char>) -> Option<Option<Seq<char>>>
    decreases e.len(),
{
    if e.len() == 0 {
        None
    } else if e[0].0 == name {
        Some(e[0].1)
    } else {
        entry_of(e.drop_first(), name)
    }
}

/// The string value of `name` in `e`.
pub open spec fn string_of(e: Entries, name: Seq<char>) -> Option<Seq<char>> {
    match entry_of(e, name) {
        Some(Some(s)) => Some(s),
        _ => None,
    }
}

/// The metadata of a post.
#[derive(Debug)]
pub struct Metadata {
    entries: Vec<(String, Option<String>)>,
}

impl View for Metadata {
    type V = Entries;

    closed spec fn view(&self) -> Entries {
        entries_view(self.entries@)
    }
}

impl Default for Metadata {
    /// No metadata.
    fn default() -> (m: Metadata)
        ensures
            m@ == Seq::<(Seq<char>, Option<Seq<char>>)>::empty(),
    {
        let m = Metadata { entries: Vec::new() };
        assert(m@ =~= Seq::<(Seq<char>, Option<Seq<char>>)>::empty());
        m
    }
}

impl Metadata {
    /// The metadata that `entries` hold.
    pub(crate) fn from_entries(entries: Vec<(String, Option<String>)>) -> (m: Metadata)
        ensures
            m@ == entries_view(entries@),
    {
        Metadata { entries }
    }

    /// The string that `name` is set to, if it is set to a string.
    pub fn get_string(&self, name: &str) -> (r: Option<String>)
        ensures
            match r {
                Some(s) => string_of(self@, name@) == Some(s@),
                None => string_of(self@, name@) is None,
            },
    {
        let key = String::from_str(name);
        let n = self.entries.len();
        let ghost e = self@;
        assert(e.skip(0) =~= e);
        for i in 0..n
            invariant
                n == self.entries.len(),
                e == self@,
                key@ == name@,
                e.len() == n,
                entry_of(e, name@) == entry_of(e.skip(i as int), name@),
        {
            assert(e.skip(i as int).drop_first() =~= e.skip(i + 1));
            assert(e.skip(i as int)[0] == e[i as int]);
            if self.entries[i].0 == key {
                return match &self.entries[i].1 {
                    Some(s) => Some(s.clone()),
                    None => None,
                };
            }
        }
        None
    }

    /// The instant that `name` is set to, where it is set to a string that
    /// `chrono` reads as a date and time.
    pub fn get_date(&self, name: &str) -> (r: Option<Timestamp>)
        ensures
            match string_of(self@, name@) {
                None => r is None,
                Some(s) => match instant_of(s) {
                    None => r is None,
                    Some((sec, ns)) => r == Some(Timestamp { seconds: sec, nanos: ns }),
                },
            },
    {
        match self.get_string(name) {
            Some(s) => match parse_instant(s.as_str()) {
                Some((seconds, nanos)) => Some(Timestamp { seconds, nanos }),
                None => None,
            },
            None => None,
        }
    }
}

/// `+++` stands at position `k` of `s`.
pub open spec fn delimiter_at(s: Seq<char>, k: int) -> bool {
    0 <= k && k + 3 <= s.len() && s[k] == '+' && s[k + 1] == '+' && s[k + 2] == '+'
}

/// `k` is where the front matter ends: the first `+++` after the opening one.
pub open spec fn closes_at(s: Seq<char>, k: int) -> bool {
    &&& 3 <= k
    &&& delimiter_at(s, k)
    &&& forall|j: int| 3 <= j < k ==> !delimiter_at(s, j)
}

/// The front matter and the body of `s`, where `s` starts with `+++` and
/// holds a second `+++` after it.
pub open spec fn front_matter(s: Seq<char>) -> Option<(Seq<char>, Seq<char>)> {
    if delimiter_at(s, 0) && exists|k: int| closes_at(s, k) {
        let k = choose|k: int| closes_at(s, k);
        Some((s.subrange(3, k), s.subrange(k + 3, s.len() as int)))
    } else {
        None
    }
}

/// There is one place at most where the front matter ends.
pub proof fn lemma_closes_at_unique(s: Seq<char>, k1: int, k2: int)
    requires
        closes_at(s, k1),
        closes_at(s, k2),
    ensures
        k1 == k2,
{
}

/// A text with front matter is the opening `+++`, the front matter, the
/// closing `+++` and the body, in this order.
pub proof fn lemma_front_matter_rebuilds(s: Seq<char>)
    requires
        front_matter(s) is Some,
    ensures
        ({
            let (front, body) = front_matter(s)->0;
            s == "+++"@ + front + "+++"@ + body
        }),
{
    reveal_strlit("+++");
    let k = choose|k: int| closes_at(s, k);
    assert(s =~= "+++"@ + s.subrange(3, k) + "+++"@ + s.subrange(k + 3, s.len() as int));
}

/// A text made of the opening `+++`, `front`, the closing `+++` and `body`
/// splits into that front matter and that body, where no `+++` starts
/// inside `front` (counting one that runs on into the closing `+++`).
/// `parse_metadata` then reads `front` as TOML and gives `body` back.
pub proof fn lemma_front_matter_splits(front: Seq<char>, body: Seq<char>)
    requires
        forall|j: int| 0 <= j < front.len() ==> !#[trigger] delimiter_at(front + "+++"@, j),
    ensures
        front_matter("+++"@ + front + "+++"@ + body) == Some((front, body)),
{
    reveal_strlit("+++");
    let s = "+++"@ + front + "+++"@ + body;
    let t = front + "+++"@;
    let k: int = (front.len() + 3) as int;
    assert forall|j: int| 3 <= j < k implies !delimiter_at(s, j) by {
        assert(!delimiter_at(t, j - 3));
        assert(s[j] == t[j - 3] && s[j + 1] == t[j - 2] && s[j + 2] == t[j - 1]);
    }
    assert(s[k] == '+' && s[k + 1] == '+' && s[k + 2] == '+');
    assert(closes_at(s, k));
    let c = choose|c: int| closes_at(s, c);
    lemma_closes_at_unique(s, c, k);
    assert(s.subrange(3, k) =~= front);
    assert(s.subrange(k + 3, s.len() as int) =~= body);
}

/// The table of a parsed document, or nothing.
pub open spec fn table_of(doc: Result<Option<Entries>, Seq<char>>) -> Entries {
    match doc {
        Ok(Some(e)) => e,
        _ => Seq::empty(),
    }
}

/// Splits a post into its metadata and its body. Where the post starts with
/// `+++` and has a second `+++` after it, the text between them is read as
/// TOML (no metadata if it is not a TOML table) and the body is what follows
/// the second `+++`; else there is no metadata and the body is all of `src`.
pub fn parse_metadata(src: &str) -> (r: (Metadata, &str))
    ensures
        match front_matter(src@) {
            None => r.0@ == Seq::<(Seq<char>, Option<Seq<char>>)>::empty() && r.1@ == src@,
            Some((front, body)) => r.0@ == table_of(toml_document(front)) && r.1@ == body,
        },
        keys_distinct(r.0@),
{
    let cs = chars_of(src);
    let n = cs.len();
    if !(n >= 3 && cs[0] == '+' && cs[1] == '+' && cs[2] == '+') {
        return (Metadata::default(), src);
    }
    let mut k: usize = 3;
    while k < n && n - k >= 3 && !(cs[k] == '+' && cs[k + 1] == '+' && cs[k + 2] == '+')
        invariant
            cs@ == src@,
            n == cs.len(),
            3 <= k <= n,
            forall|j: int| 3 <= j < k ==> !delimiter_at(src@, j),
        decreases n - k,
    {
        k = k + 1;
    }
    if !(k < n && n - k >= 3) {
        assert forall|j: int| !closes_at(src@, j) by {
            if closes_at(src@, j) && j >= k {
                assert(j + 3 <= n);
            }
        }
        return (Metadata::default(), src);
    }
    assert(closes_at(src@, k as int));
    proof {
        let c = choose|c: int| closes_at(src@, c);
        lemma_closes_at_unique(src@, c, k as int);
    }
    let front = src.substring_char(3, k);
    let body = src.substring_char(k + 3, n);
    let md = match parse_toml(front) {
        Ok(Some(entries)) => Metadata { entries },
        _ => Metadata::default(),
    };
    (md, body)
}

} // verus!
