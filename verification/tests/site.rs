use leven::build::post::{Date, Post};
use leven::build::{plan, PostPage, Source};
use leven::post::post_file_name;
use leven::slugs::SlugRegistry;

fn source(path: &str, stem: Option<&str>) -> Source {
    Source { path: path.to_string(), stem: stem.map(|s| s.to_string()) }
}

#[test]
fn post_is_read_from_its_stem() {
    let mut reg = SlugRegistry::new();
    let p = Post::new("posts/2017-05-03 Hello, World.md", Some("2017-05-03 Hello, World"), &mut reg)
        .unwrap();
    assert_eq!(p.path, "posts/2017-05-03 Hello, World.md");
    assert_eq!(p.title, "Hello, World");
    assert_eq!(p.ymd, "2017-05-03");
    assert_eq!(p.date, Date { year: 2017, month: 5, day: 3 });
    assert_eq!(p.slug, "hello-world");
}

#[test]
fn post_file_is_read_back() {
    let name = post_file_name("2017-05-03", " Hello again ");
    let stem = name.strip_suffix(".md").unwrap();
    let mut reg = SlugRegistry::new();
    let p = Post::new(&name, Some(stem), &mut reg).unwrap();
    assert_eq!((p.ymd.as_str(), p.title.as_str()), ("2017-05-03", "Hello again"));
    assert_eq!(p.date, Date { year: 2017, month: 5, day: 3 });
    let blank = post_file_name("2017-05-03", "  ");
    assert!(Post::new(&blank, blank.strip_suffix(".md"), &mut reg).is_none());
}

#[test]
fn post_title_is_trimmed() {
    let mut reg = SlugRegistry::new();
    let p = Post::new("p", Some("2020-02-29   Leap  "), &mut reg).unwrap();
    assert_eq!(p.title, "Leap");
    assert_eq!(p.date, Date { year: 2020, month: 2, day: 29 });
}

#[test]
fn bad_stems_name_no_post() {
    let mut reg = SlugRegistry::new();
    assert!(Post::new("p", None, &mut reg).is_none());
    assert!(Post::new("p", Some("2017-05-03"), &mut reg).is_none());
    assert!(Post::new("p", Some("2017-05-03   "), &mut reg).is_none());
    assert!(Post::new("p", Some("2017-13-03 Title"), &mut reg).is_none());
    assert!(Post::new("p", Some("2019-02-29 Title"), &mut reg).is_none());
    assert!(Post::new("p", Some("hello world, this"), &mut reg).is_none());
    // No slug was claimed by the refused stems.
    assert_eq!(reg.claim("Title"), "title");
}

#[test]
fn content_renders_markdown() {
    let mut reg = SlugRegistry::new();
    let p = Post::new("p", Some("2017-05-03 T"), &mut reg).unwrap();
    assert_eq!(p.content("# Hi\n\nSome *text*.\n"), "<h1>Hi</h1>\n<p>Some <em>text</em>.</p>\n");
    let s = p.summary();
    assert_eq!((s.title.as_str(), s.date.as_str(), s.slug.as_str()), ("T", "2017-05-03", "t"));
}

#[test]
fn site_orders_posts_and_skips_others() {
    let sources = vec![
        source("posts/2018-01-01 Second.md", Some("2018-01-01 Second")),
        source("posts/notes.md", Some("notes")),
        source("posts/2017-06-01 First.md", Some("2017-06-01 First")),
        source("posts/x.md", None),
        source("posts/2019-03-03 Third.md", Some("2019-03-03 Third")),
    ];
    let site = plan(&sources);
    let titles: Vec<&str> = site.posts.iter().map(|p| p.title.as_str()).collect();
    assert_eq!(titles, vec!["First", "Second", "Third"]);
    assert_eq!(site.sources, vec![2, 0, 4]);
    assert_eq!(site.posts[0].path, "posts/2017-06-01 First.md");
}

#[test]
fn site_slugs_are_unique_in_date_order() {
    let sources = vec![
        source("b", Some("2018-01-01 Same Title")),
        source("a", Some("2017-01-01 Same Title")),
        source("c", Some("2019-01-01 Index")),
        source("d", Some("2016-01-01 same title")),
    ];
    let site = plan(&sources);
    let slugs: Vec<&str> = site.posts.iter().map(|p| p.slug.as_str()).collect();
    assert_eq!(slugs, vec!["same-title", "same-title-2", "same-title-3", "index-2"]);
    assert_eq!(site.sources, vec![3, 1, 0, 2]);
}

#[test]
fn file_naming_no_post_changes_nothing() {
    let without = vec![
        source("posts/2018-01-01 Same.md", Some("2018-01-01 Same")),
        source("posts/2017-01-01 Same.md", Some("2017-01-01 Same")),
    ];
    let mut with = without.iter().map(|s| source(&s.path, s.stem.as_deref())).collect::<Vec<_>>();
    with.insert(1, source("posts/2017-13-01 X.md", Some("2017-13-01 X")));
    let a = plan(&without);
    let b = plan(&with);
    assert_eq!(a.sources, vec![1, 0]);
    assert_eq!(b.sources, vec![2, 0]);
    assert_eq!(a.posts.len(), b.posts.len());
    for (p, q) in a.posts.iter().zip(b.posts.iter()) {
        assert_eq!((&p.path, &p.ymd, &p.title, &p.slug, p.date), (&q.path, &q.ymd, &q.title, &q.slug, q.date));
    }
    assert_eq!(b.posts[1].slug, "same-2");
}

#[test]
fn equal_stems_keep_their_order() {
    let sources = vec![source("x", Some("2018-01-01 A")), source("y", Some("2018-01-01 A"))];
    let site = plan(&sources);
    assert_eq!(site.sources, vec![0, 1]);
    assert_eq!(site.posts[0].slug, "a");
    assert_eq!(site.posts[1].slug, "a-2");
}

#[test]
fn empty_site() {
    let site = plan(&Vec::new());
    assert!(site.posts.is_empty());
    assert!(site.pages().is_empty());
    assert!(site.archive().is_empty());
    assert!(site.recent().is_empty());
}

#[test]
fn pages_link_neighbours() {
    let sources = vec![
        source("a", Some("2017-01-01 A")),
        source("b", Some("2017-01-02 B")),
        source("c", Some("2017-01-03 C")),
    ];
    let site = plan(&sources);
    assert_eq!(
        site.pages(),
        vec![
            PostPage { post: 0, prev: None, next: Some(1) },
            PostPage { post: 1, prev: Some(0), next: Some(2) },
            PostPage { post: 2, prev: Some(1), next: None },
        ]
    );
    let single = plan(&vec![source("a", Some("2017-01-01 A"))]);
    assert_eq!(single.pages(), vec![PostPage { post: 0, prev: None, next: None }]);
}

#[test]
fn archive_lists_every_post() {
    let sources = vec![source("a", Some("2017-01-02 B")), source("b", Some("2017-01-01 A"))];
    let site = plan(&sources);
    let archive = site.archive();
    assert_eq!(archive.len(), 2);
    assert_eq!(archive[0].title, "A");
    assert_eq!(archive[0].date, "2017-01-01");
    assert_eq!(archive[0].slug, "a");
    assert_eq!(archive[1].title, "B");
}

#[test]
fn index_shows_sixteen_newest_first() {
    let mut sources = Vec::new();
    for i in 1..=20 {
        let stem = format!("2017-01-{:02} Post {}", i, i);
        sources.push(source(&stem, Some(&stem)));
    }
    let site = plan(&sources);
    let recent = site.recent();
    assert_eq!(recent.len(), 16);
    assert_eq!(recent[0], 19);
    assert_eq!(recent[15], 4);
    assert_eq!(site.posts[recent[0]].title, "Post 20");
    let few: Vec<Source> = sources.iter().take(3).map(|s| source(&s.path, s.stem.as_deref())).collect();
    let few = plan(&few);
    assert_eq!(few.recent(), vec![2, 1, 0]);
}

#[test]
fn slugs_name_files_of_out() {
    let sources = vec![
        source("a", Some("2017-01-01 ../../etc/passwd")),
        source("b", Some("2017-01-02 Über Café / Tea")),
        source("c", Some("2017-01-03 ../../etc/passwd")),
    ];
    let site = plan(&sources);
    for p in &site.posts {
        assert!(p.slug.chars().all(|c| c.is_ascii_lowercase() || c.is_ascii_digit() || c == '-'));
    }
    assert_eq!(site.posts[0].slug, "etc-passwd");
    assert_eq!(site.posts[1].slug, "uber-cafe-tea");
    assert_eq!(site.posts[2].slug, "etc-passwd-2");
}

fn templates() -> Vec<(String, String)> {
    vec![
        (
            "post".to_string(),
            "{{title}}|{{date}}|{{slug}}|{{{content}}}|{{#if prev}}{{prev.slug}}{{/if}}|{{#if next}}{{next.title}}{{/if}}".to_string(),
        ),
        ("archive".to_string(), "{{#each posts}}[{{date}} {{title}} {{slug}}]{{/each}}".to_string()),
        ("index".to_string(), "{{#each posts}}<{{slug}}:{{{content}}}>{{/each}}".to_string()),
    ]
}

fn three() -> leven::build::Site {
    plan(&vec![
        source("a", Some("2017-01-01 One & Only")),
        source("b", Some("2017-01-02 Two")),
        source("c", Some("2017-01-03 Three")),
    ])
}

#[test]
fn post_pages_are_rendered() {
    let site = three();
    let pages = site.pages();
    let (file, html) = site.render_page(pages[1], &templates(), "*hi*").unwrap();
    assert_eq!(file, "out/two.html");
    assert_eq!(html, "Two|2017-01-02|two|<p><em>hi</em></p>\n|one-only|Three");
    let (file, html) = site.render_page(pages[0], &templates(), "x").unwrap();
    assert_eq!(file, "out/one-only.html");
    assert_eq!(html, "One &amp; Only|2017-01-01|one-only|<p>x</p>\n||Two");
}

#[test]
fn archive_and_index_are_rendered() {
    let site = three();
    let (file, html) = site.render_archive(&templates()).unwrap();
    assert_eq!(file, "out/archive.html");
    assert_eq!(html, "[2017-01-01 One &amp; Only one-only][2017-01-02 Two two][2017-01-03 Three three]");
    let texts = vec!["c".to_string(), "b".to_string(), "a".to_string()];
    let (file, html) = site.render_index(&templates(), &texts).unwrap();
    assert_eq!(file, "out/index.html");
    assert_eq!(html, "<three:<p>c</p>\n><two:<p>b</p>\n><one-only:<p>a</p>\n>");
}

#[test]
fn template_errors_are_reported() {
    let site = three();
    assert!(site.render_archive(&Vec::new()).is_err());
    let broken = vec![("archive".to_string(), "{{#each posts}}".to_string())];
    assert!(site.render_archive(&broken).is_err());
}

#[test]
fn later_template_of_a_name_replaces_the_earlier() {
    let site = three();
    let mut ts = templates();
    ts.push(("archive".to_string(), "{{#each posts}}{{slug}};{{/each}}".to_string()));
    let (_, html) = site.render_archive(&ts).unwrap();
    assert_eq!(html, "one-only;two;three;");
}

#[test]
fn broken_template_fails_every_page() {
    let site = three();
    let mut ts = templates();
    ts.push(("extra".to_string(), "{{#if}}".to_string()));
    let e = site.render_archive(&ts).unwrap_err();
    let alone = vec![("extra".to_string(), "{{#if}}".to_string())];
    assert_eq!(site.render_archive(&alone).unwrap_err(), e);
    assert!(site.render_page(site.pages()[0], &ts, "x").is_err());
}
