# leven

A static blog generator. Posts are Markdown files named
`YYYY-MM-DD Title.md`; `leven build` renders them through Handlebars
templates into `out/`, with a page per post (linked to its older and newer
neighbours), an archive of all posts and an index of the sixteen newest.
`leven new <path>` creates a blog and `leven theme <repo>` clones a theme.

Layout:

- `src/` is the library, verified with Verus: reading posts from their file
  names, unique slugs, the order and neighbours of posts, the rendering of
  each page with the theme's templates, front matter, configuration, and
  the decisions of the commands and of the copy of a directory tree (each a
  step function from how the last action went to what to do next).
- `app/` is the program around it: command line, files, git, the clock and
  messages.
- `tests/` runs the library on concrete inputs.
