//! The pages of the site, rendered from the theme's Handlebars templates.
use vstd::prelude::*;
use vstd::string::StringExecFns;
use handlebars::Handlebars;
use serde_json::Value;
use crate::build::{PostPage, Site, INDEX_POSTS};
use crate::build::post::{Post, html_of};

verus! {

broadcast use vstd::string::group_string_axioms;

/// The Handlebars registry of templates.
#[verifier::external_type_specification]
#[verifier::external_body]
pub struct ExHandlebars<'reg>(Handlebars<'reg>);

/// A registry of templates that borrows nothing.
pub type Templates = Handlebars<'static>;

/// The templates held by a Handlebars registry: each name with the source
/// text it was registered from.
pub uninterp spec fn registered(hb: Templates) -> Map<Seq<char>, Seq<char>>;

/// The message of the error that `handlebars` gives when it compiles `text`
/// as the template `name`, or `None` where the text compiles.
pub uninterp spec fn template_error(name: Seq<char>, text: Seq<char>) -> Option<Seq<char>>;

/// What `handlebars` renders with the template `name` of the registered
/// `templates` for the data object made of the string `fields`, the `links`
/// (an object of strings, or null) and the `lists` (arrays of objects of
/// strings): `Ok` with the text, or `Err` with the message of the render
/// error.
pub uninterp spec fn rendered(
    templates: Map<Seq<char>, Seq<char>>,
    name: Seq<char>,
    fields: Seq<(Seq<char>, Seq<char>)>,
    links: Seq<(Seq<char>, Option<Seq<(Seq<char>, Seq<char>)>>)>,
    lists: Seq<(Seq<char>, Seq<Seq<(Seq<char>, Seq<char>)>>)>,
) -> Result<Seq<char>, Seq<char>>;

/// `Handlebars::new`: a registry with no template.
#[verifier::external_body]
fn new_registry() -> (hb: Templates)
    ensures
        registered(hb).dom() == Set::<Seq<char>>::empty(),
{
    Handlebars::new()
}

/// `Handlebars::register_template_string`: compiles `text` and holds it
/// under `name`, in place of any template of that name; where the text does
/// not compile, the registry is unchanged and the error's message is given.
#[verifier::external_body]
fn register_template(hb: &mut Templates, name: &str, text: &str) -> (r: Result<(), String>)
    ensures
        match r {
            Ok(()) => {
                &&& template_error(name@, text@) is None
                &&& registered(*final(hb)) == registered(*old(hb)).insert(name@, text@)
            },
            Err(m) => {
                &&& template_error(name@, text@) == Some(m@)
                &&& registered(*final(hb)) == registered(*old(hb))
            },
        },
{
    hb.register_template_string(name, text).map_err(|e| e.to_string())
}

/// The views of (key, value) string pairs.
pub open spec fn pairs(v: Seq<(String, String)>) -> Seq<(Seq<char>, Seq<char>)> {
    v.map_values(|e: (String, String)| (e.0@, e.1@))
}

/// The views of links.
pub open spec fn links_view(v: Seq<(String, Option<Vec<(String, String)>>)>) -> Seq<
    (Seq<char>, Option<Seq<(Seq<char>, Seq<char>)>>),
> {
    v.map_values(
        |e: (String, Option<Vec<(String, String)>>)|
            (
                e.0@,
                match e.1 {
                    Some(f) => Some(pairs(f@)),
                    None => None,
                },
            ),
    )
}

/// The views of lists.
pub open spec fn lists_view(v: Seq<(String, Vec<Vec<(String, String)>>)>) -> Seq<
    (Seq<char>, Seq<Seq<(Seq<char>, Seq<char>)>>),
> {
    v.map_values(
        |e: (String, Vec<Vec<(String, String)>>)|
            (e.0@, e.1@.map_values(|f: Vec<(String, String)>| pairs(f@))),
    )
}

/// `Handlebars::render` of the template `name` for the data object built
/// from `fields`, `links` and `lists`. The result is named `rendered` of the
/// registered templates and these arguments; what a template makes of its
/// data is not stated.
#[verifier::external_body]
fn render_template(
    hb: &Templates,
    name: &str,
    fields: &Vec<(String, String)>,
    links: &Vec<(String, Option<Vec<(String, String)>>)>,
    lists: &Vec<(String, Vec<Vec<(String, String)>>)>,
) -> (r: Result<String, String>)
    ensures
        match r {
            Ok(s) => rendered(registered(*hb), name@, pairs(fields@), links_view(links@), lists_view(lists@)) == Ok::<Seq<char>, Seq<char>>(s@),
            Err(m) => rendered(registered(*hb), name@, pairs(fields@), links_view(links@), lists_view(lists@)) == Err::<Seq<char>, Seq<char>>(m@),
        },
{
    let obj = |f: &Vec<(String, String)>| Value::Object(f.iter().map(|(k, v)| (k.clone(), v.as_str().into())).collect());
    let mut data = obj(fields);
    for (k, l) in links { data[k] = l.as_ref().map_or(Value::Null, &obj); }
    for (k, l) in lists { data[k] = Value::Array(l.iter().map(&obj).collect()); }
    hb.render(name, &data).map_err(|e| e.to_string())
}

/// The templates registered one after the other from `templates` (name,
/// text), or the message of the first that does not compile.
pub open spec fn registry_of(templates: Seq<(Seq<char>, Seq<char>)>) -> Result<Map<Seq<char>, Seq<char>>, Seq<char>>
    decreases templates.len(),
{
    if templates.len() == 0 {
        Ok(Map::empty())
    } else {
        match registry_of(templates.drop_last()) {
            Err(e) => Err(e),
            Ok(m) => match template_error(templates.last().0, templates.last().1) {
                Some(e) => Err(e),
                None => Ok(m.insert(templates.last().0, templates.last().1)),
            },
        }
    }
}

/// What the template `name` renders once `templates` are registered, or
/// the error of the first that does not compile.
pub open spec fn render_with(
    templates: Seq<(Seq<char>, Seq<char>)>,
    name: Seq<char>,
    fields: Seq<(Seq<char>, Seq<char>)>,
    links: Seq<(Seq<char>, Option<Seq<(Seq<char>, Seq<char>)>>)>,
    lists: Seq<(Seq<char>, Seq<Seq<(Seq<char>, Seq<char>)>>)>,
) -> Result<Seq<char>, Seq<char>> {
    match registry_of(templates) {
        Err(e) => Err(e),
        Ok(m) => rendered(m, name, fields, links, lists),
    }
}

/// A registry holding `templates`, registered in order.
fn registry(templates: &Vec<(String, String)>) -> (r: Result<Templates, String>)
    ensures
        match registry_of(pairs(templates@)) {
            Ok(m) => r matches Ok(hb) && registered(hb) == m,
            Err(e) => r matches Err(x) && x@ == e,
        },
{
    let mut hb = new_registry();
    assert(registered(hb) =~= Map::empty());
    assert(pairs(templates@).take(0) =~= Seq::empty());
    let n = templates.len();
    for i in 0..n
        invariant
            n == templates.len(),
            registry_of(pairs(templates@).take(i as int)) == Ok::<Map<Seq<char>, Seq<char>>, Seq<char>>(registered(hb)),
    {
        let ghost before = pairs(templates@).take(i as int);
        assert(pairs(templates@).take(i + 1).drop_last() =~= before);
        let r = register_template(&mut hb, templates[i].0.as_str(), templates[i].1.as_str());
        match r {
            Ok(()) => {},
            Err(m) => {
                proof {
                    lemma_registry_fails_on(pairs(templates@), i + 1);
                }
                return Err(m);
            },
        }
    }
    assert(pairs(templates@).take(n as int) =~= pairs(templates@));
    Ok(hb)
}

/// Where the registration of a prefix of `templates` fails, so does that
/// of all of them, with the same message.
proof fn lemma_registry_fails_on(templates: Seq<(Seq<char>, Seq<char>)>, k: int)
    requires
        0 <= k <= templates.len(),
        registry_of(templates.take(k)) is Err,
    ensures
        registry_of(templates) == registry_of(templates.take(k)),
    decreases templates.len() - k,
{
    if k < templates.len() {
        assert(templates.take(k + 1).drop_last() =~= templates.take(k));
        lemma_registry_fails_on(templates, k + 1);
    } else {
        assert(templates.take(k) =~= templates);
    }
}

/// What the templates read of a post beside others.
pub open spec fn summary_of(p: Post) -> Seq<(Seq<char>, Seq<char>)> {
    seq![("title"@, p.title@), ("date"@, p.ymd@), ("slug"@, p.slug@)]
}

/// What the templates read of a post with its content.
pub open spec fn with_content(p: Post, html: Seq<char>) -> Seq<(Seq<char>, Seq<char>)> {
    summary_of(p).push(("content"@, html))
}

/// The summary of post `k`, if there is one.
pub open spec fn link_of(posts: Seq<Post>, k: Option<usize>) -> Option<Seq<(Seq<char>, Seq<char>)>> {
    match k {
        Some(i) => Some(summary_of(posts[i as int])),
        None => None,
    }
}

/// The file of a post's page.
pub open spec fn page_file(p: Post) -> Seq<char> {
    "out/"@ + p.slug@ + ".html"@
}

/// What the post template renders for `page`, whose post's file holds
/// `markdown`.
pub open spec fn rendered_post(
    templates: Seq<(Seq<char>, Seq<char>)>,
    posts: Seq<Post>,
    page: PostPage,
    markdown: Seq<char>,
) -> Result<Seq<char>, Seq<char>> {
    render_with(
        templates,
        "post"@,
        with_content(posts[page.post as int], html_of(markdown)),
        seq![("prev"@, link_of(posts, page.prev)), ("next"@, link_of(posts, page.next))],
        seq![],
    )
}

/// What the archive template renders: every post's summary, oldest first.
pub open spec fn rendered_archive(
    templates: Seq<(Seq<char>, Seq<char>)>,
    posts: Seq<Post>,
) -> Result<Seq<char>, Seq<char>> {
    render_with(
        templates,
        "archive"@,
        seq![],
        seq![],
        seq![("posts"@, posts.map_values(|p: Post| summary_of(p)))],
    )
}

/// The posts the index shows, newest first, each with the content rendered
/// from its text in `markdowns`.
pub open spec fn index_entries(posts: Seq<Post>, markdowns: Seq<Seq<char>>) -> Seq<
    Seq<(Seq<char>, Seq<char>)>,
> {
    Seq::new(
        markdowns.len(),
        |k: int| with_content(posts[posts.len() - 1 - k], html_of(markdowns[k])),
    )
}

/// What the index template renders.
pub open spec fn rendered_index(
    templates: Seq<(Seq<char>, Seq<char>)>,
    posts: Seq<Post>,
    markdowns: Seq<Seq<char>>,
) -> Result<Seq<char>, Seq<char>> {
    render_with(templates, "index"@, seq![], seq![], seq![("posts"@, index_entries(posts, markdowns))])
}

/// The summary fields that a template reads of post `i`, if there is one:
/// its title, date and slug, in this order.
proof fn lemma_link_fields(posts: Seq<Post>, k: Option<usize>)
    ensures
        link_of(posts, k) == match k {
            Some(i) => Some(
                seq![
                    ("title"@, posts[i as int].title@),
                    ("date"@, posts[i as int].ymd@),
                    ("slug"@, posts[i as int].slug@),
                ],
            ),
            None => None,
        },
{
    if let Some(i) = k {
        assert(summary_of(posts[i as int]) =~= seq![
            ("title"@, posts[i as int].title@),
            ("date"@, posts[i as int].ymd@),
            ("slug"@, posts[i as int].slug@),
        ]);
    }
}

/// The page of a post shows, from the `post` template, the post's title,
/// date, slug and content (the HTML of its text), and links to the older
/// (`prev`) and newer (`next`) post where there is one, each with that
/// post's title, date and slug, the fields the archive shows of it.
pub proof fn lemma_post_page_data(
    templates: Seq<(Seq<char>, Seq<char>)>,
    posts: Seq<Post>,
    page: PostPage,
    markdown: Seq<char>,
)
    ensures
        rendered_post(templates, posts, page, markdown) == match registry_of(templates) {
            Err(e) => Err(e),
            Ok(m) => rendered(
                m,
                "post"@,
                seq![
                    ("title"@, posts[page.post as int].title@),
                    ("date"@, posts[page.post as int].ymd@),
                    ("slug"@, posts[page.post as int].slug@),
                    ("content"@, html_of(markdown)),
                ],
                seq![
                    (
                        "prev"@,
                        match page.prev {
                            Some(i) => Some(
                                seq![
                                    ("title"@, posts[i as int].title@),
                                    ("date"@, posts[i as int].ymd@),
                                    ("slug"@, posts[i as int].slug@),
                                ],
                            ),
                            None => None,
                        },
                    ),
                    (
                        "next"@,
                        match page.next {
                            Some(i) => Some(
                                seq![
                                    ("title"@, posts[i as int].title@),
                                    ("date"@, posts[i as int].ymd@),
                                    ("slug"@, posts[i as int].slug@),
                                ],
                            ),
                            None => None,
                        },
                    ),
                ],
                seq![],
            ),
        },
{
    let fields = seq![
        ("title"@, posts[page.post as int].title@),
        ("date"@, posts[page.post as int].ymd@),
        ("slug"@, posts[page.post as int].slug@),
        ("content"@, html_of(markdown)),
    ];
    assert(with_content(posts[page.post as int], html_of(markdown)) =~= fields);
    lemma_link_fields(posts, page.prev);
    lemma_link_fields(posts, page.next);
    let prev = match page.prev {
        Some(i) => Some(
            seq![
                ("title"@, posts[i as int].title@),
                ("date"@, posts[i as int].ymd@),
                ("slug"@, posts[i as int].slug@),
            ],
        ),
        None => None,
    };
    let next = match page.next {
        Some(i) => Some(
            seq![
                ("title"@, posts[i as int].title@),
                ("date"@, posts[i as int].ymd@),
                ("slug"@, posts[i as int].slug@),
            ],
        ),
        None => None,
    };
    let links = seq![("prev"@, prev), ("next"@, next)];
    assert(seq![("prev"@, link_of(posts, page.prev)), ("next"@, link_of(posts, page.next))] =~= links);
    let none: Seq<(Seq<char>, Seq<Seq<(Seq<char>, Seq<char>)>>)> = seq![];
    assert(rendered_post(templates, posts, page, markdown) == match registry_of(templates) {
        Err(e) => Err(e),
        Ok(m) => rendered(m, "post"@, fields, links, none),
    });
    assert(links == seq![
        (
            "prev"@,
            match page.prev {
                Some(i) => Some(
                    seq![
                        ("title"@, posts[i as int].title@),
                        ("date"@, posts[i as int].ymd@),
                        ("slug"@, posts[i as int].slug@),
                    ],
                ),
                None => None,
            },
        ),
        (
            "next"@,
            match page.next {
                Some(i) => Some(
                    seq![
                        ("title"@, posts[i as int].title@),
                        ("date"@, posts[i as int].ymd@),
                        ("slug"@, posts[i as int].slug@),
                    ],
                ),
                None => None,
            },
        ),
    ]);
}

/// The archive shows, from the `archive` template, every post, oldest
/// first, each with its title, date and slug.
pub proof fn lemma_archive_data(templates: Seq<(Seq<char>, Seq<char>)>, posts: Seq<Post>)
    ensures
        rendered_archive(templates, posts) == match registry_of(templates) {
            Err(e) => Err(e),
            Ok(m) => rendered(
                m,
                "archive"@,
                seq![],
                seq![],
                seq![
                    (
                        "posts"@,
                        Seq::new(
                            posts.len(),
                            |k: int|
                                seq![
                                    ("title"@, posts[k].title@),
                                    ("date"@, posts[k].ymd@),
                                    ("slug"@, posts[k].slug@),
                                ],
                        ),
                    ),
                ],
            ),
        },
{
    let want = Seq::new(
        posts.len(),
        |k: int| seq![("title"@, posts[k].title@), ("date"@, posts[k].ymd@), ("slug"@, posts[k].slug@)],
    );
    let have = posts.map_values(|p: Post| summary_of(p));
    assert forall|k: int| 0 <= k < posts.len() implies have[k] == want[k] by {
        assert(have[k] =~= want[k]);
    }
    assert(have =~= want);
}

/// The index shows, from the `index` template, the posts whose texts are
/// given, newest first (entry `k` is the `k + 1`-th newest post), each with
/// its title, date, slug and content (the HTML of its text).
pub proof fn lemma_index_data(
    templates: Seq<(Seq<char>, Seq<char>)>,
    posts: Seq<Post>,
    markdowns: Seq<Seq<char>>,
)
    ensures
        rendered_index(templates, posts, markdowns) == match registry_of(templates) {
            Err(e) => Err(e),
            Ok(m) => rendered(
                m,
                "index"@,
                seq![],
                seq![],
                seq![
                    (
                        "posts"@,
                        Seq::new(
                            markdowns.len(),
                            |k: int|
                                seq![
                                    ("title"@, posts[posts.len() - 1 - k].title@),
                                    ("date"@, posts[posts.len() - 1 - k].ymd@),
                                    ("slug"@, posts[posts.len() - 1 - k].slug@),
                                    ("content"@, html_of(markdowns[k])),
                                ],
                        ),
                    ),
                ],
            ),
        },
{
    let want = Seq::new(
        markdowns.len(),
        |k: int|
            seq![
                ("title"@, posts[posts.len() - 1 - k].title@),
                ("date"@, posts[posts.len() - 1 - k].ymd@),
                ("slug"@, posts[posts.len() - 1 - k].slug@),
                ("content"@, html_of(markdowns[k])),
            ],
    );
    let have = index_entries(posts, markdowns);
    assert forall|k: int| 0 <= k < markdowns.len() implies have[k] == want[k] by {
        assert(have[k] =~= want[k]);
    }
    assert(have =~= want);
}

fn pair(key: &str, value: &String) -> (r: (String, String))
    ensures
        r.0@ == key@,
        r.1@ == value@,
{
    (String::from_str(key), value.clone())
}

fn summary_pairs(p: &Post) -> (r: Vec<(String, String)>)
    ensures
        pairs(r@) == summary_of(*p),
{
    let mut r: Vec<(String, String)> = Vec::new();
    r.push(pair("title", &p.title));
    r.push(pair("date", &p.ymd));
    r.push(pair("slug", &p.slug));
    assert(pairs(r@) =~= summary_of(*p));
    r
}

fn content_pairs(p: &Post, markdown: &str) -> (r: Vec<(String, String)>)
    ensures
        pairs(r@) == with_content(*p, html_of(markdown@)),
{
    let mut r = summary_pairs(p);
    let html = p.content(markdown);
    let ghost before = r@;
    r.push(pair("content", &html));
    assert(pairs(r@) =~= pairs(before).push(("content"@, html@)));
    r
}

impl Site {
    fn link(&self, k: Option<usize>) -> (r: Option<Vec<(String, String)>>)
        requires
            k matches Some(i) ==> i < self.posts.len(),
        ensures
            match r {
                Some(f) => link_of(self.posts@, k) == Some(pairs(f@)),
                None => link_of(self.posts@, k) is None,
            },
    {
        match k {
            Some(i) => Some(summary_pairs(&self.posts[i])),
            None => None,
        }
    }

    /// Renders the page of a post with the `post` template, given the text
    /// of the post's file: the file to write and its HTML.
    pub fn render_page(&self, page: PostPage, templates: &Vec<(String, String)>, markdown: &str) -> (r:
        Result<(String, String), String>)
        requires
            page.post < self.posts.len(),
            page.prev matches Some(i) ==> i < self.posts.len(),
            page.next matches Some(i) ==> i < self.posts.len(),
        ensures
            match r {
                Ok((file, html)) => {
                    &&& file@ == page_file(self.posts@[page.post as int])
                    &&& rendered_post(pairs(templates@), self.posts@, page, markdown@) == Ok::<
                        Seq<char>,
                        Seq<char>,
                    >(html@)
                },
                Err(m) => rendered_post(pairs(templates@), self.posts@, page, markdown@) == Err::<
                    Seq<char>,
                    Seq<char>,
                >(m@),
            },
    {
        let post = &self.posts[page.post];
        let fields = content_pairs(post, markdown);
        let mut links: Vec<(String, Option<Vec<(String, String)>>)> = Vec::new();
        links.push((String::from_str("prev"), self.link(page.prev)));
        links.push((String::from_str("next"), self.link(page.next)));
        let lists: Vec<(String, Vec<Vec<(String, String)>>)> = Vec::new();
        assert(links_view(links@) =~= seq![
            ("prev"@, link_of(self.posts@, page.prev)),
            ("next"@, link_of(self.posts@, page.next)),
        ]);
        assert(lists_view(lists@) =~= Seq::<(Seq<char>, Seq<Seq<(Seq<char>, Seq<char>)>>)>::empty());
        let hb = registry(templates)?;
        let html = render_template(&hb, "post", &fields, &links, &lists)?;
        let mut file = String::from_str("out/");
        file.append(post.slug.as_str());
        file.append(".html");
        Ok((file, html))
    }

    /// Renders the archive with the `archive` template: the file to write and
    /// its HTML.
    pub fn render_archive(&self, templates: &Vec<(String, String)>) -> (r: Result<(String, String), String>)
        ensures
            match r {
                Ok((file, html)) => {
                    &&& file@ == "out/archive.html"@
                    &&& rendered_archive(pairs(templates@), self.posts@) == Ok::<Seq<char>, Seq<char>>(html@)
                },
                Err(m) => rendered_archive(pairs(templates@), self.posts@) == Err::<Seq<char>, Seq<char>>(m@),
            },
    {
        let n = self.posts.len();
        let mut entries: Vec<Vec<(String, String)>> = Vec::new();
        for k in 0..n
            invariant
                n == self.posts.len(),
                entries.len() == k,
                forall|j: int| 0 <= j < k ==> pairs((#[trigger] entries@[j])@) == summary_of(self.posts@[j]),
        {
            entries.push(summary_pairs(&self.posts[k]));
        }
        assert(entries@.map_values(|f: Vec<(String, String)>| pairs(f@)) =~= self.posts@.map_values(
            |p: Post| summary_of(p),
        ));
        let fields: Vec<(String, String)> = Vec::new();
        let links: Vec<(String, Option<Vec<(String, String)>>)> = Vec::new();
        let mut lists: Vec<(String, Vec<Vec<(String, String)>>)> = Vec::new();
        lists.push((String::from_str("posts"), entries));
        assert(pairs(fields@) =~= Seq::<(Seq<char>, Seq<char>)>::empty());
        assert(links_view(links@) =~= Seq::<(Seq<char>, Option<Seq<(Seq<char>, Seq<char>)>>)>::empty());
        assert(lists_view(lists@) =~= seq![("posts"@, self.posts@.map_values(|p: Post| summary_of(p)))]);
        let hb = registry(templates)?;
        let html = render_template(&hb, "archive", &fields, &links, &lists)?;
        Ok((String::from_str("out/archive.html"), html))
    }

    /// Renders the index with the `index` template, given the texts of the
    /// files of the posts that `recent` picks, in its order: the file to
    /// write and its HTML.
    pub fn render_index(&self, templates: &Vec<(String, String)>, markdowns: &Vec<String>) -> (r:
        Result<(String, String), String>)
        requires
            markdowns.len() == if self.posts.len() < INDEX_POSTS {
                self.posts.len()
            } else {
                INDEX_POSTS
            },
        ensures
            match r {
                Ok((file, html)) => {
                    &&& file@ == "out/index.html"@
                    &&& rendered_index(pairs(templates@), self.posts@, markdowns@.map_values(|m: String| m@))
                        == Ok::<Seq<char>, Seq<char>>(html@)
                },
                Err(m) => rendered_index(pairs(templates@), self.posts@, markdowns@.map_values(|m: String| m@))
                    == Err::<Seq<char>, Seq<char>>(m@),
            },
    {
        let n = self.posts.len();
        let count = markdowns.len();
        let mut entries: Vec<Vec<(String, String)>> = Vec::new();
        for k in 0..count
            invariant
                n == self.posts.len(),
                count == markdowns.len(),
                count <= n,
                entries.len() == k,
                forall|j: int|
                    0 <= j < k ==> pairs((#[trigger] entries@[j])@) == with_content(
                        self.posts@[n - 1 - j],
                        html_of(markdowns@[j]@),
                    ),
        {
            entries.push(content_pairs(&self.posts[n - 1 - k], markdowns[k].as_str()));
        }
        assert(entries@.map_values(|f: Vec<(String, String)>| pairs(f@)) =~= index_entries(
            self.posts@,
            markdowns@.map_values(|m: String| m@),
        ));
        let fields: Vec<(String, String)> = Vec::new();
        let links: Vec<(String, Option<Vec<(String, String)>>)> = Vec::new();
        let mut lists: Vec<(String, Vec<Vec<(String, String)>>)> = Vec::new();
        lists.push((String::from_str("posts"), entries));
        assert(pairs(fields@) =~= Seq::<(Seq<char>, Seq<char>)>::empty());
        assert(links_view(links@) =~= Seq::<(Seq<char>, Option<Seq<(Seq<char>, Seq<char>)>>)>::empty());
        assert(lists_view(lists@) =~= seq![
            ("posts"@, index_entries(self.posts@, markdowns@.map_values(|m: String| m@))),
        ]);
        let hb = registry(templates)?;
        let html = render_template(&hb, "index", &fields, &links, &lists)?;
        Ok((String::from_str("out/index.html"), html))
    }
}

} // verus!
