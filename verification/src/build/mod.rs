//! Building the site: which posts there are, in which order, with which
//! neighbours, and what the archive and the index show.
use vstd::prelude::*;
use vstd::utf8::encode_utf8;
use crate::slugs::{SlugRegistry, is_claim, lemma_claim_unique, slug_chars, slug_of};
use crate::text::{chars_of, lex_le, lex_le_chars, lemma_lex_total, lemma_lex_transitive};
use self::post::{Post, Summary, Date, stem_fields, stem_cuttable};

pub mod page;
pub mod post;

verus! {

broadcast use vstd::string::group_string_axioms;

/// How many posts the index shows.
pub const INDEX_POSTS: usize = 16;

/// A post file found on disk: its path, and the stem of its name where it
/// has one in UTF-8.
#[derive(Debug)]
pub struct Source {
    pub path: String,
    pub stem: Option<String>,
}

/// The stem of a source as characters (empty where it has none).
pub open spec fn key(s: Source) -> Seq<char> {
    match s.stem {
        Some(t) => t@,
        None => Seq::empty(),
    }
}

/// Source `i` comes before source `j`: by stem, then by position.
pub open spec fn precedes(sources: Seq<Source>, i: int, j: int) -> bool {
    &&& lex_le(key(sources[i]), key(sources[j]))
    &&& (lex_le(key(sources[j]), key(sources[i])) ==> i < j)
}

/// Source `i` has a stem that names a post.
pub open spec fn names_post(sources: Seq<Source>, i: int) -> bool {
    &&& 0 <= i < sources.len()
    &&& sources[i].stem matches Some(t)
    &&& stem_fields(encode_utf8(t@)) is Some
}

/// The slugs of the site's own pages, which no post receives.
pub open spec fn reserved() -> Seq<Seq<char>> {
    seq!["index"@, "archive"@]
}

/// The slugs of `posts`.
pub open spec fn slugs_of(posts: Seq<Post>) -> Seq<Seq<char>> {
    posts.map_values(|p: Post| p.slug@)
}

/// The site: its posts, from oldest to newest, and for each the position of
/// its source.
pub struct Site {
    pub posts: Vec<Post>,
    pub sources: Vec<usize>,
}

/// `s` is the site built from `sources`: a post for each source whose stem
/// names one, ordered by stem (ties by position), each post's fields read
/// from its stem, and each slug claimed in that order after the reserved
/// ones.
pub open spec fn is_site_of(sources: Seq<Source>, s: Site) -> bool {
    &&& s.posts.len() == s.sources.len()
    &&& forall|a: int| 0 <= a < s.sources.len() ==> #[trigger] s.sources@[a] < sources.len()
    &&& forall|i: int| #![trigger names_post(sources, i)]
        0 <= i < sources.len() ==> (names_post(sources, i) <==> s.sources@.contains(i as usize))
    &&& forall|a: int, b: int|
        0 <= a < b < s.sources.len() ==> precedes(
            sources,
            #[trigger] s.sources@[a] as int,
            #[trigger] s.sources@[b] as int,
        ) && s.sources@[a] != s.sources@[b]
    &&& forall|k: int|
        0 <= k < s.posts.len() ==> #[trigger] post_matches(sources, s.sources@, s.posts@, k)
}

/// The positions of the sources that have a stem, ordered by stem, ties by
/// position.
fn stem_order(sources: &Vec<Source>) -> (order: Vec<usize>)
    ensures
        forall|i: int|
            0 <= i < sources.len() ==> (sources@[i].stem is Some <==> order@.contains(
                i as usize,
            )),
        forall|q: int| 0 <= q < order.len() ==> order@[q] < sources.len(),
        forall|a: int, b: int|
            0 <= a < b < order.len() ==> precedes(
                sources@,
                #[trigger] order@[a] as int,
                #[trigger] order@[b] as int,
            ) && order@[a] != order@[b],
{
    let n = sources.len();
    let mut keys: Vec<Vec<char>> = Vec::new();
    for i in 0..n
        invariant
            n == sources.len(),
            keys.len() == i,
            forall|j: int| 0 <= j < i ==> (#[trigger] keys@[j])@ == key(sources@[j]),
    {
        match &sources[i].stem {
            Some(t) => keys.push(chars_of(t.as_str())),
            None => keys.push(Vec::new()),
        }
    }
    let mut order: Vec<usize> = Vec::new();
    for k in 0..n
        invariant
            n == sources.len(),
            keys.len() == n,
            forall|j: int| 0 <= j < n ==> (#[trigger] keys@[j])@ == key(sources@[j]),
            forall|i: int|
                0 <= i < n ==> (i < k && sources@[i].stem is Some <==> order@.contains(
                    i as usize,
                )),
            forall|q: int| 0 <= q < order.len() ==> order@[q] < k,
            forall|a: int, b: int|
                0 <= a < b < order.len() ==> precedes(
                    sources@,
                    #[trigger] order@[a] as int,
                    #[trigger] order@[b] as int,
                ) && order@[a] != order@[b],
    {
        if sources[k].stem.is_some() {
            let mut p: usize = 0;
            while p < order.len() && lex_le_chars(&keys[order[p]], &keys[k])
                invariant
                    n == sources.len(),
                    keys.len() == n,
                    k < n,
                    forall|j: int| 0 <= j < n ==> (#[trigger] keys@[j])@ == key(sources@[j]),
                    forall|q: int| 0 <= q < order.len() ==> order@[q] < k,
                    p <= order.len(),
                    forall|q: int|
                        0 <= q < p ==> lex_le(key(sources@[#[trigger] order@[q] as int]), key(sources@[k as int])),
                decreases order.len() - p,
            {
                p = p + 1;
            }
            let ghost old_order = order@;
            proof {
                let x = key(sources@[k as int]);
                if p < old_order.len() {
                    let y = key(sources@[old_order[p as int] as int]);
                    assert(!lex_le(y, x));
                    lemma_lex_total(x, y);
                }
                assert forall|q: int| p <= q < old_order.len() implies precedes(
                    sources@,
                    k as int,
                    #[trigger] old_order[q] as int,
                ) by {
                    let x = key(sources@[k as int]);
                    let y = key(sources@[old_order[p as int] as int]);
                    let z = key(sources@[old_order[q] as int]);
                    if q > p {
                        assert(precedes(sources@, old_order[p as int] as int, old_order[q] as int));
                        lemma_lex_transitive(x, y, z);
                        if lex_le(z, x) {
                            lemma_lex_transitive(y, z, x);
                        }
                    }
                }
                assert forall|q: int| 0 <= q < p implies precedes(
                    sources@,
                    #[trigger] old_order[q] as int,
                    k as int,
                ) by {}
            }
            order.insert(p, k);
            proof {
                assert forall|a: int, b: int|
                    0 <= a < b < order.len() implies precedes(
                        sources@,
                        #[trigger] order@[a] as int,
                        #[trigger] order@[b] as int,
                    ) && order@[a] != order@[b] by {
                    if a < p && b < p {
                        assert(order@[a] == old_order[a] && order@[b] == old_order[b]);
                    } else if a < p && b == p {
                    } else if a < p {
                        assert(order@[a] == old_order[a] && order@[b] == old_order[b - 1]);
                    } else if a == p {
                        assert(order@[b] == old_order[b - 1]);
                    } else {
                        assert(order@[a] == old_order[a - 1] && order@[b] == old_order[b - 1]);
                    }
                }
                assert forall|i: int|
                    0 <= i < n implies (i < k + 1 && sources@[i].stem is Some
                        <==> order@.contains(i as usize)) by {
                    if order@.contains(i as usize) {
                        let q = choose|q: int| 0 <= q < order.len() && order@[q] == i as usize;
                        if q < p {
                            assert(old_order[q] == i);
                        } else if q > p {
                            assert(old_order[q - 1] == i);
                        }
                    }
                    if i < k && sources@[i].stem is Some {
                        let q = choose|q: int| 0 <= q < old_order.len() && old_order[q] == i as usize;
                        if q < p {
                            assert(order@[q] == i);
                        } else {
                            assert(order@[q + 1] == i);
                        }
                    }
                    if i == k {
                        assert(order@[p as int] == i);
                    }
                }
            }
        }
    }
    order
}

/// A claimed slug is not among those taken before.
pub proof fn lemma_claim_fresh(used: Seq<Seq<char>>, base: Seq<char>, slug: Seq<char>)
    requires
        is_claim(used, base, slug),
    ensures
        !used.contains(slug),
{
}

/// Every post of a site has its own slug, and none is the slug of the index
/// or of the archive page.
pub proof fn lemma_site_slugs_unique(sources: Seq<Source>, site: Site)
    requires
        is_site_of(sources, site),
    ensures
        forall|j: int, k: int|
            0 <= j < k < site.posts.len() ==> (#[trigger] site.posts@[j]).slug@
                != (#[trigger] site.posts@[k]).slug@,
        forall|k: int|
            0 <= k < site.posts.len() ==> (#[trigger] site.posts@[k]).slug@ != "index"@
                && site.posts@[k].slug@ != "archive"@,
{
    assert forall|k: int| 0 <= k < site.posts.len() implies !(reserved() + slugs_of(
        site.posts@.take(k),
    )).contains(#[trigger] site.posts@[k].slug@) by {
        assert(post_matches(sources, site.sources@, site.posts@, k));
        let t = sources[site.sources@[k] as int].stem->0;
        let (ymd, title, d) = stem_fields(encode_utf8(t@))->0;
        lemma_claim_fresh(reserved() + slugs_of(site.posts@.take(k)), slug_of(title), site.posts@[k].slug@);
    }
    assert forall|j: int, k: int|
        0 <= j < k < site.posts.len() implies (#[trigger] site.posts@[j]).slug@
            != (#[trigger] site.posts@[k]).slug@ by {
        let used = reserved() + slugs_of(site.posts@.take(k));
        assert(used[j + 2] == site.posts@[j].slug@);
        assert(!used.contains(site.posts@[k].slug@));
    }
    assert forall|k: int|
        0 <= k < site.posts.len() implies (#[trigger] site.posts@[k]).slug@ != "index"@
            && site.posts@[k].slug@ != "archive"@ by {
        let used = reserved() + slugs_of(site.posts@.take(k));
        assert(used[0] == "index"@);
        assert(used[1] == "archive"@);
        assert(!used.contains(site.posts@[k].slug@));
    }
}

/// `b` and `c` are the same post: same file, date, title and slug.
pub open spec fn same_post(b: Post, c: Post) -> bool {
    &&& b.path@ == c.path@
    &&& b.ymd@ == c.ymd@
    &&& b.title@ == c.title@
    &&& b.date == c.date
    &&& b.slug@ == c.slug@
}

/// Source `i` never precedes itself, and of two sources one at most
/// precedes the other.
pub proof fn lemma_precedes_asymmetric(sources: Seq<Source>, i: int, j: int)
    requires
        precedes(sources, i, j),
    ensures
        !precedes(sources, j, i),
{
}

/// Two sequences of positions, each ordered by `precedes` without repeats,
/// that hold the same positions are equal.
pub proof fn lemma_ordered_unique(sources: Seq<Source>, a: Seq<int>, b: Seq<int>)
    requires
        forall|x: int, y: int|
            0 <= x < y < a.len() ==> precedes(sources, #[trigger] a[x], #[trigger] a[y]) && a[x] != a[y],
        forall|x: int, y: int|
            0 <= x < y < b.len() ==> precedes(sources, #[trigger] b[x], #[trigger] b[y]) && b[x] != b[y],
        forall|v: int| a.contains(v) <==> b.contains(v),
    ensures
        a == b,
    decreases a.len(),
{
    if a.len() == 0 {
        if b.len() > 0 {
            assert(b.contains(b[0]));
        }
        assert(b =~= a);
    } else {
        assert(a.contains(a[0]));
        assert(b.contains(a[0]));
        let j = choose|j: int| 0 <= j < b.len() && b[j] == a[0];
        assert(b.contains(b[0]));
        let i = choose|i: int| 0 <= i < a.len() && a[i] == b[0];
        if j > 0 {
            assert(precedes(sources, b[0], b[j]));
            if i > 0 {
                assert(precedes(sources, a[0], a[i]));
                lemma_precedes_asymmetric(sources, a[0], a[i]);
            }
        }
        assert(a[0] == b[0]);
        let a1 = a.drop_first();
        let b1 = b.drop_first();
        assert forall|v: int| a1.contains(v) <==> b1.contains(v) by {
            if a1.contains(v) {
                let x = choose|x: int| 0 <= x < a1.len() && a1[x] == v;
                assert(a[x + 1] == v && v != a[0]);
                assert(a.contains(v));
                let y = choose|y: int| 0 <= y < b.len() && b[y] == v;
                assert(y != 0);
                assert(b1[y - 1] == v);
            }
            if b1.contains(v) {
                let x = choose|x: int| 0 <= x < b1.len() && b1[x] == v;
                assert(b[x + 1] == v && v != b[0]);
                assert(b.contains(v));
                let y = choose|y: int| 0 <= y < a.len() && a[y] == v;
                assert(y != 0);
                assert(a1[y - 1] == v);
            }
        }
        assert forall|x: int, y: int|
            0 <= x < y < a1.len() implies precedes(sources, #[trigger] a1[x], #[trigger] a1[y])
                && a1[x] != a1[y] by {
            assert(a1[x] == a[x + 1] && a1[y] == a[y + 1]);
        }
        assert forall|x: int, y: int|
            0 <= x < y < b1.len() implies precedes(sources, #[trigger] b1[x], #[trigger] b1[y])
                && b1[x] != b1[y] by {
            assert(b1[x] == b[x + 1] && b1[y] == b[y + 1]);
        }
        lemma_ordered_unique(sources, a1, b1);
        assert(a =~= seq![a[0]] + a1);
        assert(b =~= seq![b[0]] + b1);
    }
}

/// The position that source `i` moves to when a source is put at `m`.
pub open spec fn shifted(m: int, i: int) -> int {
    if i < m {
        i
    } else {
        i + 1
    }
}

/// Posts read from the same stems, in the same order, get the same slugs.
proof fn lemma_slugs_agree(
    s1: Seq<Source>,
    a: Site,
    s2: Seq<Source>,
    b: Site,
    k: int,
)
    requires
        0 <= k <= a.posts.len(),
        a.posts.len() == b.posts.len(),
        a.posts.len() == a.sources.len(),
        b.posts.len() == b.sources.len(),
        forall|j: int| 0 <= j < a.posts.len() ==> #[trigger] post_matches(s1, a.sources@, a.posts@, j),
        forall|j: int| 0 <= j < b.posts.len() ==> #[trigger] post_matches(s2, b.sources@, b.posts@, j),
        forall|j: int| 0 <= j < a.posts.len() ==> #[trigger] s1[a.sources@[j] as int] == s2[b.sources@[j] as int],
    ensures
        forall|j: int| 0 <= j < k ==> (#[trigger] a.posts@[j]).slug@ == b.posts@[j].slug@,
    decreases k,
{
    if k > 0 {
        lemma_slugs_agree(s1, a, s2, b, k - 1);
        let j = k - 1;
        assert(post_matches(s1, a.sources@, a.posts@, j));
        assert(post_matches(s2, b.sources@, b.posts@, j));
        assert(s1[a.sources@[j] as int] == s2[b.sources@[j] as int]);
        assert(slugs_of(a.posts@.take(j)) =~= slugs_of(b.posts@.take(j)));
        let t = s1[a.sources@[j] as int].stem->0;
        let (ymd, title, d) = stem_fields(encode_utf8(t@))->0;
        lemma_claim_unique(
            reserved() + slugs_of(a.posts@.take(j)),
            slug_of(title),
            a.posts@[j].slug@,
            b.posts@[j].slug@,
        );
    }
}

/// A file that names no post changes nothing: where one is added among the
/// post files, at any place, the site has the same posts, in the same
/// order, each read from the same file and with the same slug.
pub proof fn lemma_non_post_file_changes_nothing(
    sources: Seq<Source>,
    m: int,
    f: Source,
    a: Site,
    b: Site,
)
    requires
        0 <= m <= sources.len(),
        sources.len() < usize::MAX,
        !names_post(sources.insert(m, f), m),
        is_site_of(sources, a),
        is_site_of(sources.insert(m, f), b),
    ensures
        b.sources.len() == a.sources.len(),
        forall|k: int|
            0 <= k < a.sources.len() ==> #[trigger] b.sources@[k] as int == shifted(
                m,
                a.sources@[k] as int,
            ),
        b.posts.len() == a.posts.len(),
        forall|k: int| 0 <= k < a.posts.len() ==> same_post(#[trigger] a.posts@[k], b.posts@[k]),
{
    let s2 = sources.insert(m, f);
    let n = sources.len() as int;
    assert forall|i: int| 0 <= i < n implies #[trigger] s2[shifted(m, i)] == sources[i] by {}
    let ai = a.sources@.map_values(|x: usize| shifted(m, x as int));
    let bi = b.sources@.map_values(|x: usize| x as int);
    assert forall|x: int, y: int|
        0 <= x < y < ai.len() implies precedes(s2, #[trigger] ai[x], #[trigger] ai[y]) && ai[x] != ai[y] by {
        assert(precedes(sources, a.sources@[x] as int, a.sources@[y] as int));
        assert(a.sources@[x] < n && a.sources@[y] < n);
        assert(s2[ai[x]] == sources[a.sources@[x] as int]);
        assert(s2[ai[y]] == sources[a.sources@[y] as int]);
    }
    assert forall|x: int, y: int|
        0 <= x < y < bi.len() implies precedes(s2, #[trigger] bi[x], #[trigger] bi[y]) && bi[x] != bi[y] by {
        assert(precedes(s2, b.sources@[x] as int, b.sources@[y] as int));
    }
    assert forall|v: int| ai.contains(v) <==> bi.contains(v) by {
        if ai.contains(v) {
            let x = choose|x: int| 0 <= x < ai.len() && ai[x] == v;
            let i = a.sources@[x] as int;
            assert(a.sources@.contains(i as usize));
            assert(i < n);
            assert(names_post(sources, i));
            assert(s2[shifted(m, i)] == sources[i]);
            assert(names_post(s2, v));
            assert(0 <= v <= n < usize::MAX);
            assert(b.sources@.contains(v as usize));
            let y = choose|y: int| 0 <= y < b.sources.len() && b.sources@[y] == v as usize;
            assert((v as usize) as int == v);
            assert(bi[y] == b.sources@[y] as int);
            assert(bi[y] == v);
        }
        if bi.contains(v) {
            let y = choose|y: int| 0 <= y < bi.len() && bi[y] == v;
            assert(b.sources@[y] < s2.len());
            assert(b.sources@.contains(v as usize));
            assert(names_post(s2, v));
            assert(v != m);
            let i = if v < m { v } else { v - 1 };
            assert(shifted(m, i) == v);
            assert(s2[v] == sources[i]);
            assert(names_post(sources, i));
            assert(a.sources@.contains(i as usize));
            let x = choose|x: int| 0 <= x < a.sources.len() && a.sources@[x] == i as usize;
            assert(ai[x] == v);
        }
    }
    lemma_ordered_unique(s2, ai, bi);
    assert forall|k: int|
        0 <= k < a.sources.len() implies #[trigger] b.sources@[k] as int == shifted(m, a.sources@[k] as int) by {
        assert(ai[k] == bi[k]);
    }
    assert forall|j: int| 0 <= j < a.posts.len() implies #[trigger] sources[a.sources@[j] as int]
        == s2[b.sources@[j] as int] by {
        assert(ai[j] == bi[j]);
        assert(a.sources@[j] < n);
    }
    lemma_slugs_agree(sources, a, s2, b, a.posts.len() as int);
    assert forall|k: int| 0 <= k < a.posts.len() implies same_post(#[trigger] a.posts@[k], b.posts@[k]) by {
        assert(post_matches(sources, a.sources@, a.posts@, k));
        assert(post_matches(s2, b.sources@, b.posts@, k));
        assert(sources[a.sources@[k] as int] == s2[b.sources@[k] as int]);
    }
}

/// Post `k` is read from the source at `srcs[k]` and has claimed its slug
/// after the reserved ones and those of the posts before it; the slug is
/// made of `a-z`, `0-9` and `-`, so that it names a file of `out/`.
pub open spec fn post_matches(sources: Seq<Source>, srcs: Seq<usize>, posts: Seq<Post>, k: int) -> bool {
    let src = sources[srcs[k] as int];
    let p = posts[k];
    &&& src.stem matches Some(t)
    &&& stem_fields(encode_utf8(t@)) matches Some((ymd, title, d))
    &&& p.path@ == src.path@
    &&& p.ymd@ == ymd
    &&& p.title@ == title
    &&& p.date == (Date { year: d.0, month: d.1, day: d.2 })
    &&& is_claim(reserved() + slugs_of(posts.take(k)), slug_of(title), p.slug@)
    &&& slug_chars(p.slug@)
}

/// Every stem can be cut after its tenth byte.
pub open spec fn stems_cuttable(sources: Seq<Source>) -> bool {
    forall|i: int|
        0 <= i < sources.len() ==> (#[trigger] sources[i].stem matches Some(t) ==> stem_cuttable(
            encode_utf8(t@),
        ))
}

/// Builds the site from the post files found: orders them by stem (which
/// starts with the date, so from oldest to newest), reads a post from each
/// stem that names one and gives each post its slug in that order.
pub fn plan(sources: &Vec<Source>) -> (site: Site)
    requires
        stems_cuttable(sources@),
    ensures
        is_site_of(sources@, site),
{
    let n = sources.len();
    let order = stem_order(sources);
    let mut slugs = SlugRegistry::new();
    let mut posts: Vec<Post> = Vec::new();
    let mut srcs: Vec<usize> = Vec::new();
    let ghost mut pos: Seq<int> = Seq::empty();
    for q in 0..order.len()
        invariant
            n == sources.len(),
            stems_cuttable(sources@),
            forall|i: int|
                0 <= i < n ==> (sources@[i].stem is Some <==> order@.contains(i as usize)),
            forall|r: int| 0 <= r < order.len() ==> order@[r] < n,
            forall|a: int, b: int|
                0 <= a < b < order.len() ==> precedes(
                    sources@,
                    #[trigger] order@[a] as int,
                    #[trigger] order@[b] as int,
                ) && order@[a] != order@[b],
            slugs.wf(),
            slugs@ == reserved() + slugs_of(posts@),
            posts.len() == srcs.len(),
            pos.len() == srcs.len(),
            forall|a: int| 0 <= a < srcs.len() ==> #[trigger] srcs@[a] < n,
            forall|a: int| 0 <= a < pos.len() ==> 0 <= #[trigger] pos[a] < q && srcs@[a] == order@[pos[a]],
            forall|a: int, b: int| 0 <= a < b < pos.len() ==> #[trigger] pos[a] < #[trigger] pos[b],
            forall|i: int|
                #![trigger names_post(sources@, i)]
                #![trigger srcs@.contains(i as usize)]
                0 <= i < n ==> (names_post(sources@, i) && order@.take(q as int).contains(i as usize)
                    <==> srcs@.contains(i as usize)),
            forall|k: int| 0 <= k < posts.len() ==> post_matches(sources@, srcs@, posts@, k),
    {
        let i = order[q];
        let ghost old_posts = posts@;
        let ghost old_srcs = srcs@;
        let ghost old_slugs = slugs@;
        let made = match &sources[i].stem {
            Some(t) => Post::new(sources[i].path.as_str(), Some(t.as_str()), &mut slugs),
            None => None,
        };
        assert(made is Some <==> names_post(sources@, i as int));
        match made {
            Some(p) => {
                posts.push(p);
                srcs.push(i);
                proof {
                    pos = pos.push(q as int);
                    assert(slugs_of(posts@) =~= slugs_of(old_posts).push(posts@[old_posts.len() as int].slug@));
                    assert(posts@.take(old_posts.len() as int) =~= old_posts);
                    assert forall|k: int| 0 <= k < old_posts.len() implies #[trigger] posts@.take(k) =~= old_posts.take(k) by {}
                    let k = old_posts.len() as int;
                    let t = sources@[i as int].stem->0;
                    assert(stem_fields(encode_utf8(t@)) is Some);
                    let (ymd, title, d) = stem_fields(encode_utf8(t@))->0;
                    assert(is_claim(old_slugs, slug_of(title), posts@[k].slug@));
                    assert(old_slugs == reserved() + slugs_of(posts@.take(k)));
                    assert forall|k2: int| 0 <= k2 < old_posts.len() implies post_matches(sources@, srcs@, posts@, k2) by {
                        assert(post_matches(sources@, old_srcs, old_posts, k2));
                        assert(posts@[k2] == old_posts[k2]);
                        assert(srcs@[k2] == old_srcs[k2]);
                        assert(posts@.take(k2) =~= old_posts.take(k2));
                    }
                    assert(post_matches(sources@, srcs@, posts@, k));
                }
            },
            None => {},
        }
        proof {
            assert(order@.take(q + 1) =~= order@.take(q as int).push(i));
            assert forall|i2: int|
                #![trigger names_post(sources@, i2)]
                #![trigger srcs@.contains(i2 as usize)]
                0 <= i2 < n implies (names_post(sources@, i2) && order@.take(q + 1).contains(i2 as usize)
                    <==> srcs@.contains(i2 as usize)) by {
                if i2 != i {
                    assert(order@.take(q + 1).contains(i2 as usize) == order@.take(q as int).contains(i2 as usize));
                    if srcs@.contains(i2 as usize) {
                        let a = choose|a: int| 0 <= a < srcs.len() && srcs@[a] == i2 as usize;
                        assert(a < old_srcs.len());
                        assert(old_srcs[a] == i2);
                    }
                    if old_srcs.contains(i2 as usize) {
                        let a = choose|a: int| 0 <= a < old_srcs.len() && old_srcs[a] == i2 as usize;
                        assert(srcs@[a] == i2);
                    }
                } else {
                    assert(order@.take(q + 1)[q as int] == i2 as usize);
                    if names_post(sources@, i2) {
                        assert(srcs@[srcs.len() - 1] == i2);
                    } else {
                        assert(srcs@ == old_srcs);
                        if old_srcs.contains(i2 as usize) {
                            let a = choose|a: int| 0 <= a < old_srcs.len() && old_srcs[a] == i2 as usize;
                            assert(pos[a] < q);
                            assert(order@[pos[a]] == order@[q as int]);
                        }
                    }
                }
            }
        }
    }
    proof {
        assert(order@.take(order.len() as int) =~= order@);
        assert forall|a: int, b: int|
            0 <= a < b < srcs.len() implies precedes(
                sources@,
                #[trigger] srcs@[a] as int,
                #[trigger] srcs@[b] as int,
            ) && srcs@[a] != srcs@[b] by {
            assert(pos[a] < pos[b]);
        }
        assert forall|i: int| #![trigger names_post(sources@, i)]
            0 <= i < n implies (names_post(sources@, i) <==> srcs@.contains(i as usize)) by {
            if names_post(sources@, i) {
                assert(order@.contains(i as usize));
                assert(order@.take(order.len() as int).contains(i as usize));
            }
        }
    }
    Site { posts, sources: srcs }
}

/// The page of a post: which post, and its older and newer neighbours.
#[derive(Clone, Copy, Debug, PartialEq, Eq)]
pub struct PostPage {
    pub post: usize,
    pub prev: Option<usize>,
    pub next: Option<usize>,
}

impl Site {
    /// The page of each post, in order: post `k` links to post `k - 1` as
    /// the previous (older) one and to post `k + 1` as the next (newer) one,
    /// where they exist.
    pub fn pages(&self) -> (pages: Vec<PostPage>)
        ensures
            pages.len() == self.posts.len(),
            forall|k: int|
                0 <= k < pages.len() ==> #[trigger] pages@[k] == (PostPage {
                    post: k as usize,
                    prev: if k > 0 {
                        Some((k - 1) as usize)
                    } else {
                        None
                    },
                    next: if k + 1 < pages.len() {
                        Some((k + 1) as usize)
                    } else {
                        None
                    },
                }),
    {
        let n = self.posts.len();
        let mut pages: Vec<PostPage> = Vec::new();
        for k in 0..n
            invariant
                n == self.posts.len(),
                pages.len() == k,
                forall|j: int|
                    0 <= j < k ==> #[trigger] pages@[j] == (PostPage {
                        post: j as usize,
                        prev: if j > 0 {
                            Some((j - 1) as usize)
                        } else {
                            None
                        },
                        next: if j + 1 < n {
                            Some((j + 1) as usize)
                        } else {
                            None
                        },
                    }),
        {
            let prev = if k > 0 {
                Some(k - 1)
            } else {
                None
            };
            let next = if k + 1 < n {
                Some(k + 1)
            } else {
                None
            };
            pages.push(PostPage { post: k, prev, next });
        }
        pages
    }

    /// What the archive lists: every post, oldest first.
    pub fn archive(&self) -> (entries: Vec<Summary>)
        ensures
            entries.len() == self.posts.len(),
            forall|k: int|
                0 <= k < entries.len() ==> {
                    &&& (#[trigger] entries@[k]).title@ == self.posts@[k].title@
                    &&& entries@[k].date@ == self.posts@[k].ymd@
                    &&& entries@[k].slug@ == self.posts@[k].slug@
                },
    {
        let n = self.posts.len();
        let mut entries: Vec<Summary> = Vec::new();
        for k in 0..n
            invariant
                n == self.posts.len(),
                entries.len() == k,
                forall|j: int|
                    0 <= j < k ==> {
                        &&& (#[trigger] entries@[j]).title@ == self.posts@[j].title@
                        &&& entries@[j].date@ == self.posts@[j].ymd@
                        &&& entries@[j].slug@ == self.posts@[j].slug@
                    },
        {
            entries.push(self.posts[k].summary());
        }
        entries
    }

    /// The posts that the index shows: the newest, up to sixteen, newest
    /// first.
    pub fn recent(&self) -> (picked: Vec<usize>)
        ensures
            picked.len() == if self.posts.len() < INDEX_POSTS {
                self.posts.len()
            } else {
                INDEX_POSTS
            },
            forall|k: int|
                0 <= k < picked.len() ==> #[trigger] picked@[k] == self.posts.len() - 1 - k,
    {
        let n = self.posts.len();
        let count = if n < INDEX_POSTS {
            n
        } else {
            INDEX_POSTS
        };
        let mut picked: Vec<usize> = Vec::new();
        for k in 0..count
            invariant
                n == self.posts.len(),
                count <= n,
                picked.len() == k,
                forall|j: int| 0 <= j < k ==> #[trigger] picked@[j] == n - 1 - j,
        {
            picked.push(n - 1 - k);
        }
        picked
    }
}

} // verus!
