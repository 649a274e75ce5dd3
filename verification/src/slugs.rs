//! Slugs of post titles, kept unique across a site.
use vstd::prelude::*;
use vstd::string::StringExecFns;
use crate::text::{decimal, lemma_decimal_digits, lemma_decimal_injective, push_decimal};

verus! {

broadcast use vstd::string::group_string_axioms;

/// What `slug::slugify` makes of `title`.
pub uninterp spec fn slug_of(title: Seq<char>) -> Seq<char>;

/// The characters that a slug is made of.
pub open spec fn is_slug_char(c: char) -> bool {
    ('a' <= c && c <= 'z') || ('0' <= c && c <= '9') || c == '-'
}

/// `s` is made of slug characters only.
pub open spec fn slug_chars(s: Seq<char>) -> bool {
    forall|i: int| 0 <= i < s.len() ==> is_slug_char(#[trigger] s[i])
}

/// Calls `slug::slugify`. Its result is named `slug_of(title)`; as the
/// crate documents, it consists of `a-z`, `0-9` and `-`, never begins or
/// ends with `-` and never holds two `-` in a row. Which slug a given title
/// has (the transliteration of other characters) is not stated.
#[verifier::external_body]
fn slugify(title: &str) -> (out: String)
    ensures
        out@ == slug_of(title@),
        slug_chars(out@),
        out@.len() > 0 ==> out@[0] != '-' && out@.last() != '-',
        forall|i: int| 0 <= i < out@.len() - 1 ==> !(#[trigger] out@[i] == '-' && out@[i + 1] == '-'),
{
    ::slug::slugify(title)
}

/// `base` with the suffix `-<i>`.
pub open spec fn numbered(base: Seq<char>, i: nat) -> Seq<char> {
    base + seq!['-'] + decimal(i)
}

/// `k` is the first suffix from 2 on whose numbered slug is not in `used`.
pub open spec fn first_free(used: Seq<Seq<char>>, base: Seq<char>, k: nat) -> bool {
    &&& 2 <= k
    &&& !used.contains(numbered(base, k))
    &&& forall|j: nat| 2 <= j < k ==> used.contains(#[trigger] numbered(base, j))
}

/// `slug` is the slug that a title with the plain slug `base` receives when
/// `used` are taken: `base` itself if free, else `base-k` for the first
/// free `k` from 2 on.
pub open spec fn is_claim(used: Seq<Seq<char>>, base: Seq<char>, slug: Seq<char>) -> bool {
    if !used.contains(base) {
        slug == base
    } else {
        exists|k: nat| first_free(used, base, k) && slug == numbered(base, k)
    }
}

/// A numbered slug is made of slug characters where its base is.
pub proof fn lemma_numbered_chars(base: Seq<char>, i: nat)
    requires
        slug_chars(base),
    ensures
        slug_chars(numbered(base, i)),
{
    lemma_decimal_digits(i);
    let n = numbered(base, i);
    assert forall|j: int| 0 <= j < n.len() implies is_slug_char(#[trigger] n[j]) by {
        if j < base.len() {
            assert(n[j] == base[j]);
        } else if j == base.len() {
            assert(n[j] == '-');
        } else {
            assert(n[j] == decimal(i)[j - base.len() - 1]);
        }
    }
}

/// Distinct suffixes give distinct numbered slugs.
pub proof fn lemma_numbered_injective(base: Seq<char>, a: nat, b: nat)
    requires
        numbered(base, a) == numbered(base, b),
    ensures
        a == b,
{
    let n = base.len() as int + 1;
    assert(numbered(base, a).subrange(n, numbered(base, a).len() as int) =~= decimal(a));
    assert(numbered(base, b).subrange(n, numbered(base, b).len() as int) =~= decimal(b));
    lemma_decimal_injective(a, b);
}

/// There is at most one first free suffix, so a claim is determined.
pub proof fn lemma_first_free_unique(used: Seq<Seq<char>>, base: Seq<char>, k1: nat, k2: nat)
    requires
        first_free(used, base, k1),
        first_free(used, base, k2),
    ensures
        k1 == k2,
{
    if k1 < k2 {
        assert(used.contains(numbered(base, k1)));
    } else if k2 < k1 {
        assert(used.contains(numbered(base, k2)));
    }
}

/// A claim is determined by what is taken and the plain slug.
pub proof fn lemma_claim_unique(used: Seq<Seq<char>>, base: Seq<char>, s1: Seq<char>, s2: Seq<char>)
    requires
        is_claim(used, base, s1),
        is_claim(used, base, s2),
    ensures
        s1 == s2,
{
    if used.contains(base) {
        let k1 = choose|k: nat| first_free(used, base, k) && s1 == numbered(base, k);
        let k2 = choose|k: nat| first_free(used, base, k) && s2 == numbered(base, k);
        lemma_first_free_unique(used, base, k1, k2);
    }
}

/// The slugs given out so far, with those reserved for the site's own pages.
pub struct SlugRegistry {
    used: Vec<String>,
}

impl View for SlugRegistry {
    type V = Seq<Seq<char>>;

    closed spec fn view(&self) -> Seq<Seq<char>> {
        self.used@.map_values(|s: String| s@)
    }
}

impl SlugRegistry {
    /// No slug is held twice.
    pub open spec fn wf(&self) -> bool {
        self@.no_duplicates()
    }

    /// A registry that holds the slugs of the index and archive pages.
    pub fn new() -> (r: SlugRegistry)
        ensures
            r.wf(),
            r@ == seq!["index"@, "archive"@],
    {
        let mut used: Vec<String> = Vec::new();
        used.push(String::from_str("index"));
        used.push(String::from_str("archive"));
        proof {
            reveal_strlit("index");
            reveal_strlit("archive");
            assert("index"@[0] != "archive"@[0]);
        }
        let r = SlugRegistry { used };
        assert(r@ =~= seq!["index"@, "archive"@]);
        r
    }

    /// Whether `s` is taken.
    pub fn holds(&self, s: &String) -> (b: bool)
        ensures
            b == self@.contains(s@),
    {
        let mut k: usize = 0;
        while k < self.used.len()
            invariant
                k <= self.used.len(),
                forall|j: int| 0 <= j < k ==> self@[j] != s@,
            decreases self.used.len() - k,
        {
            if self.used[k] == *s {
                assert(self@[k as int] == s@);
                return true;
            }
            k = k + 1;
        }
        false
    }

    fn take(&mut self, s: String)
        requires
            old(self).wf(),
            !old(self)@.contains(s@),
        ensures
            final(self).wf(),
            final(self)@ == old(self)@.push(s@),
    {
        self.used.push(s);
        assert(self@ =~= old(self)@.push(s@));
    }

    /// The slug for a post titled `title`: its plain slug when that is free,
    /// else the plain slug with the first free suffix `-2`, `-3`, ...
    /// The slug is then taken.
    pub fn claim(&mut self, title: &str) -> (slug: String)
        requires
            old(self).wf(),
        ensures
            final(self).wf(),
            is_claim(old(self)@, slug_of(title@), slug@),
            !old(self)@.contains(slug@),
            final(self)@ == old(self)@.push(slug@),
            slug_chars(slug@),
    {
        let base = slugify(title);
        self.claim_slug(base)
    }

    /// The slug for a post whose plain slug is `base`: `base` when it is
    /// free, else `base` with the first free suffix `-2`, `-3`, ... The slug
    /// is then taken.
    pub fn claim_slug(&mut self, base: String) -> (slug: String)
        requires
            old(self).wf(),
        ensures
            final(self).wf(),
            is_claim(old(self)@, base@, slug@),
            !old(self)@.contains(slug@),
            final(self)@ == old(self)@.push(slug@),
            slug_chars(base@) ==> slug_chars(slug@),
    {
        if !self.holds(&base) {
            self.take(base.clone());
            return base;
        }
        proof {
            reveal_strlit("-");
        }
        let mut i: u128 = 2;
        let ghost mut cands: Set<Seq<char>> = Set::empty();
        loop
            invariant
                self.wf(),
                self@ == old(self)@,
                self@.contains(base@),
                2 <= i,
                cands.finite(),
                cands.len() == i - 2,
                i - 2 <= self@.len(),
                self@.len() == self.used.len(),
                forall|x: Seq<char>| cands.contains(x) ==> self@.contains(x),
                forall|x: Seq<char>|
                    cands.contains(x) ==> exists|j: nat| 2 <= j < i && x == numbered(base@, j),
                forall|j: nat| 2 <= j < i ==> self@.contains(#[trigger] numbered(base@, j)),
            decreases self@.len() + 2 - i,
        {
            let mut cand = base.clone();
            cand.append("-");
            push_decimal(&mut cand, i);
            proof {
                reveal_strlit("-");
            }
            assert(cand@ =~= numbered(base@, i as nat));
            if !self.holds(&cand) {
                self.take(cand.clone());
                assert(first_free(old(self)@, base@, i as nat));
                proof {
                    if slug_chars(base@) {
                        lemma_numbered_chars(base@, i as nat);
                    }
                }
                return cand;
            }
            proof {
                if cands.contains(cand@) {
                    let j = choose|j: nat| 2 <= j < i && cand@ == numbered(base@, j);
                    lemma_numbered_injective(base@, j, i as nat);
                }
                cands = cands.insert(cand@);
                assert(cands.subset_of(self@.to_set()));
                vstd::set_lib::lemma_len_subset(cands, self@.to_set());
                self@.lemma_cardinality_of_set();
                assert forall|x: Seq<char>| cands.contains(x) implies exists|j: nat|
                    2 <= j < i + 1 && x == numbered(base@, j) by {
                    if x != cand@ {
                        let j = choose|j: nat| 2 <= j < i && x == numbered(base@, j);
                        assert(2 <= j < i + 1 && x == numbered(base@, j));
                    } else {
                        assert(2 <= i < i + 1 && x == numbered(base@, i as nat));
                    }
                }
            }
            i = i + 1;
        }
    }
}

} // verus!
