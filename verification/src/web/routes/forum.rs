//! `/api/forum` and `/api/forum/discussion`: a forum's threads and a
//! discussion's posts.
use vstd::prelude::*;
use crate::dom::{page_first, page_select, select_all_in_page, select_first_in_page, 
    attr_of, document_tree, element_outer_html, first_below, flags_for, node_attr, outer_html,
    parse_document, select_all, select_below, select_first, selector_matches, text_content,
    text_of, DomNode, Document, TreeView,
};
use crate::errors::{ErrorResponse, ErrorView};
use crate::text::{before_char, copy_str, find, find_first, prefix_before_char, trim, trim_str, to_chars, substring};

verus! {

/// A discussion thread of a forum.
#[derive(Debug, PartialEq, Eq)]
pub struct DiscussionThread {
    pub id: String,
    pub title: String,
}

/// A forum: its title, description and threads.
#[derive(Debug, PartialEq, Eq)]
pub struct ForumDetails {
    pub id: String,
    pub title: String,
    pub description: String,
    pub threads: Vec<DiscussionThread>,
}

/// A post of a discussion; `content` is the post's HTML.
#[derive(Debug, PartialEq, Eq)]
pub struct ForumPost {
    pub id: String,
    pub subject: String,
    pub author: String,
    pub time: String,
    pub content: String,
}

/// A discussion: its title and posts.
#[derive(Debug, PartialEq, Eq)]
pub struct DiscussionDetails {
    pub id: String,
    pub title: String,
    pub posts: Vec<ForumPost>,
}

/// The mathematical value of a [`DiscussionThread`].
pub struct ThreadView {
    pub id: Seq<char>,
    pub title: Seq<char>,
}

/// The mathematical value of a [`ForumDetails`].
pub struct ForumView {
    pub id: Seq<char>,
    pub title: Seq<char>,
    pub description: Seq<char>,
    pub threads: Seq<ThreadView>,
}

/// The mathematical value of a [`ForumPost`].
pub struct PostView {
    pub id: Seq<char>,
    pub subject: Seq<char>,
    pub author: Seq<char>,
    pub time: Seq<char>,
    pub content: Seq<char>,
}

/// The mathematical value of a [`DiscussionDetails`].
pub struct DiscussionView {
    pub id: Seq<char>,
    pub title: Seq<char>,
    pub posts: Seq<PostView>,
}

impl DeepView for DiscussionThread {
    type V = ThreadView;

    open spec fn deep_view(&self) -> ThreadView {
        ThreadView { id: self.id@, title: self.title@ }
    }
}

impl DeepView for ForumDetails {
    type V = ForumView;

    open spec fn deep_view(&self) -> ForumView {
        ForumView {
            id: self.id@,
            title: self.title@,
            description: self.description@,
            threads: self.threads.deep_view(),
        }
    }
}

impl DeepView for ForumPost {
    type V = PostView;

    open spec fn deep_view(&self) -> PostView {
        PostView {
            id: self.id@,
            subject: self.subject@,
            author: self.author@,
            time: self.time@,
            content: self.content@,
        }
    }
}

impl DeepView for DiscussionDetails {
    type V = DiscussionView;

    open spec fn deep_view(&self) -> DiscussionView {
        DiscussionView { id: self.id@, title: self.title@, posts: self.posts.deep_view() }
    }
}

/// The trimmed text of the first match of `flags` below `t`, if any.
pub open spec fn first_text(t: TreeView, flags: Seq<bool>) -> Option<Seq<char>> {
    match first_below(t, flags) {
        Some(el) => Some(trim(text_of(el))),
        None => None,
    }
}

/// The trimmed text of the first match of `flags` in the page whose tree
/// is `root` (see [`page_first`]), if any.
pub open spec fn page_first_text(root: TreeView, flags: Seq<bool>) -> Option<Seq<char>> {
    match page_first(root, flags) {
        Some(el) => Some(trim(text_of(el))),
        None => None,
    }
}

/// The trimmed text of the first match in the page, or the empty string.
pub open spec fn page_first_text_or_empty(root: TreeView, flags: Seq<bool>) -> Seq<char> {
    match page_first_text(root, flags) {
        Some(s) => s,
        None => Seq::empty(),
    }
}

/// The trimmed text of the first match, or the empty string.
pub open spec fn first_text_or_empty(t: TreeView, flags: Seq<bool>) -> Seq<char> {
    match first_text(t, flags) {
        Some(s) => s,
        None => Seq::empty(),
    }
}

fn first_text_exec(t: &DomNode, flags: &Vec<bool>) -> (r: Option<String>)
    ensures
        r matches Some(s) ==> first_text(t.deep_view(), flags@) == Some(s@),
        r is None ==> first_text(t.deep_view(), flags@) is None,
{
    match select_first(t, flags) {
        Some(el) => {
            let all = text_content(el);
            Some(trim_str(all.as_str()))
        }
        None => None,
    }
}

fn first_text_or_empty_exec(t: &DomNode, flags: &Vec<bool>) -> (s: String)
    ensures
        s@ == first_text_or_empty(t.deep_view(), flags@),
{
    match first_text_exec(t, flags) {
        Some(s) => s,
        None => String::new(),
    }
}

fn page_first_text_exec(root: &DomNode, flags: &Vec<bool>) -> (r: Option<String>)
    ensures
        r matches Some(s) ==> page_first_text(root.deep_view(), flags@) == Some(s@),
        r is None ==> page_first_text(root.deep_view(), flags@) is None,
{
    match select_first_in_page(root, flags) {
        Some(el) => {
            let all = text_content(el);
            Some(trim_str(all.as_str()))
        }
        None => None,
    }
}

fn page_first_text_or_empty_exec(root: &DomNode, flags: &Vec<bool>) -> (s: String)
    ensures
        s@ == page_first_text_or_empty(root.deep_view(), flags@),
{
    match page_first_text_exec(root, flags) {
        Some(s) => s,
        None => String::new(),
    }
}

// ------------------------------------------------------------------
// Forums
// ------------------------------------------------------------------

/// The discussion id in a thread link: what follows the first `d=` up to
/// the next `&`.
pub open spec fn id_after_d(href: Seq<char>) -> Option<Seq<char>> {
    match find_first(href, "d="@) {
        Some(pos) => Some(before_char(href.skip(pos + 2), '&')),
        None => None,
    }
}

/// The thread a `tr.discussion` row stands for: its id comes from its link
/// (`d=..`), else from the row's `data-discussionid`; its title is the
/// link's text. `None` when the id is empty.
pub open spec fn thread_of(row: TreeView, link_flags: Seq<bool>) -> Option<ThreadView> {
    let row_id = match attr_of(row, "data-discussionid"@) {
        Some(v) => v,
        None => Seq::empty(),
    };
    let (id, title) = match first_below(row, link_flags) {
        Some(link) => {
            let href = match attr_of(link, "href"@) {
                Some(h) => h,
                None => Seq::empty(),
            };
            let parsed = match id_after_d(href) {
                Some(x) => x,
                None => row_id,
            };
            (parsed, trim(text_of(link)))
        }
        None => (row_id, Seq::empty()),
    };
    if id.len() == 0 { None } else { Some(ThreadView { id, title }) }
}

/// The threads of a list of discussion rows.
pub open spec fn threads_of(rows: Seq<TreeView>, link_flags: Seq<bool>) -> Seq<ThreadView>
    decreases rows.len(),
{
    if rows.len() == 0 {
        Seq::empty()
    } else {
        threads_of(rows.drop_last(), link_flags) + match thread_of(rows.last(), link_flags) {
            Some(t) => seq![t],
            None => Seq::empty(),
        }
    }
}

/// What a forum page says: its title (the first `h2, h1.h2`, else
/// "Announcements"), its description and its threads.
pub open spec fn forum_of(html: Seq<char>, forum_id: Seq<char>) -> ForumView {
    let root = document_tree(html);
    ForumView {
        id: forum_id,
        title: match page_first_text(root, selector_matches(html, "h2, h1.h2"@)) {
            Some(t) => t,
            None => "Announcements"@,
        },
        description: page_first_text_or_empty(root, selector_matches(html, "#intro .no-overflow"@)),
        threads: threads_of(
            page_select(root, selector_matches(html, "tr.discussion"@)),
            selector_matches(html, "th.topic a, td.topic a"@),
        ),
    }
}

fn id_after_d_exec(href: &str) -> (r: Option<String>)
    ensures
        r matches Some(s) ==> id_after_d(href@) == Some(s@),
        r is None ==> id_after_d(href@) is None,
{
    proof {
        reveal_strlit("d=");
    }
    let chars = to_chars(href);
    match find(href, "d=") {
        Some(pos) => {
            let n = chars.len();
            assert(pos + 2 <= n);
            let rest = substring(&chars, pos + 2, n);
            assert(rest@ =~= href@.skip(pos + 2));
            Some(prefix_before_char(rest.as_str(), '&'))
        }
        None => None,
    }
}

fn thread_of_exec(row: &DomNode, link_flags: &Vec<bool>) -> (r: Option<DiscussionThread>)
    ensures
        r matches Some(t) ==> thread_of(row.deep_view(), link_flags@) == Some(t.deep_view()),
        r is None ==> thread_of(row.deep_view(), link_flags@) is None,
{
    let row_id = match node_attr(row, "data-discussionid") {
        Some(v) => v,
        None => String::new(),
    };
    let (id, title) = match select_first(row, link_flags) {
        Some(link) => {
            let href = match node_attr(link, "href") {
                Some(h) => h,
                None => String::new(),
            };
            let all = text_content(link);
            let title = trim_str(all.as_str());
            let parsed_id = match id_after_d_exec(href.as_str()) {
                Some(x) => x,
                None => row_id,
            };
            (parsed_id, title)
        }
        None => (row_id, String::new()),
    };
    if id.as_str().is_empty() {
        None
    } else {
        Some(DiscussionThread { id, title })
    }
}

/// Reads a forum page (see [`forum_of`]); it never fails.
pub fn parse_forum_html(html: &str, forum_id: String) -> (r: Result<ForumDetails, ErrorResponse>)
    ensures
        r matches Ok(d) && d.deep_view() == forum_of(html@, forum_id@),
{
    let document = parse_document(html);
    let title_flags = flags_for(&document, "h2, h1.h2");
    let title = match page_first_text_exec(&document.root, &title_flags) {
        Some(t) => t,
        None => copy_str("Announcements"),
    };
    let intro_flags = flags_for(&document, "#intro .no-overflow");
    let description = page_first_text_or_empty_exec(&document.root, &intro_flags);
    let row_flags = flags_for(&document, "tr.discussion");
    let link_flags = flags_for(&document, "th.topic a, td.topic a");
    let rows = select_all_in_page(&document.root, &row_flags);
    let ghost rv = rows.deep_view();
    let mut threads: Vec<DiscussionThread> = Vec::new();
    let mut i: usize = 0;
    assert(rv.take(0) =~= Seq::<TreeView>::empty());
    while i < rows.len()
        invariant
            i <= rows@.len(),
            rv == rows.deep_view(),
            threads.deep_view() == threads_of(rv.take(i as int), link_flags@),
        decreases rows@.len() - i,
    {
        let ghost before = threads.deep_view();
        assert(rv.take(i + 1).drop_last() =~= rv.take(i as int));
        assert(rv.take(i + 1).last() == rows[i as int].deep_view());
        match thread_of_exec(rows[i], &link_flags) {
            Some(t) => {
                threads.push(t);
                assert(threads.deep_view() =~= before + seq![t.deep_view()]);
            }
            None => {
                assert(before + Seq::<ThreadView>::empty() =~= before);
            }
        }
        i += 1;
    }
    assert(rv.take(rows@.len() as int) =~= rv);
    Ok(ForumDetails { id: forum_id, title, description, threads })
}


// ------------------------------------------------------------------
// Discussions
// ------------------------------------------------------------------

/// The selector matches a discussion page needs.
pub struct DiscussionSelectors {
    pub subject: Seq<bool>,
    pub author: Seq<bool>,
    pub time: Seq<bool>,
    pub fullmessage: Seq<bool>,
    pub content_container: Seq<bool>,
}

/// The selector matches of a discussion page `html`.
pub open spec fn discussion_selectors(html: Seq<char>) -> DiscussionSelectors {
    DiscussionSelectors {
        subject: selector_matches(html, "[data-region-content=\"forum-post-core-subject\"], .post-heading"@),
        author: selector_matches(html, ".author-time-info a, .post-footer a"@),
        time: selector_matches(html, ".author-time-info time, .post-footer time"@),
        fullmessage: selector_matches(html, ".fullmessage"@),
        content_container: selector_matches(html, ".post-content-container"@),
    }
}

/// The post an `article` element holds. Its content is the trimmed HTML of
/// its `.fullmessage`, else of its `.post-content-container`, else empty.
pub open spec fn post_of(html: Seq<char>, article: TreeView, s: DiscussionSelectors) -> PostView {
    PostView {
        id: match attr_of(article, "data-post-id"@) {
            Some(v) => v,
            None => Seq::empty(),
        },
        subject: first_text_or_empty(article, s.subject),
        author: first_text_or_empty(article, s.author),
        time: first_text_or_empty(article, s.time),
        content: match first_below(article, s.fullmessage) {
            Some(fm) => trim(element_outer_html(html, fm.pos)),
            None => match first_below(article, s.content_container) {
                Some(cc) => trim(element_outer_html(html, cc.pos)),
                None => Seq::empty(),
            },
        },
    }
}

/// The posts of a list of `article` elements.
pub open spec fn posts_of(html: Seq<char>, articles: Seq<TreeView>, s: DiscussionSelectors) -> Seq<PostView>
    decreases articles.len(),
{
    if articles.len() == 0 {
        Seq::empty()
    } else {
        posts_of(html, articles.drop_last(), s) + seq![post_of(html, articles.last(), s)]
    }
}

/// What a discussion page says: its title and its posts, one for each
/// `article[data-region="post"]`.
pub open spec fn discussion_of(html: Seq<char>, discuss_id: Seq<char>) -> DiscussionView {
    let root = document_tree(html);
    DiscussionView {
        id: discuss_id,
        title: page_first_text_or_empty(root, selector_matches(html, ".discussionname, h3.discussionname"@)),
        posts: posts_of(
            html,
            page_select(root, selector_matches(html, "article[data-region=\"post\"]"@)),
            discussion_selectors(html),
        ),
    }
}

struct DiscussionFlags {
    subject: Vec<bool>,
    author: Vec<bool>,
    time: Vec<bool>,
    fullmessage: Vec<bool>,
    content_container: Vec<bool>,
}

impl DiscussionFlags {
    spec fn view_of(&self) -> DiscussionSelectors {
        DiscussionSelectors {
            subject: self.subject@,
            author: self.author@,
            time: self.time@,
            fullmessage: self.fullmessage@,
            content_container: self.content_container@,
        }
    }
}

fn post_of_exec(doc: &Document, article: &DomNode, f: &DiscussionFlags) -> (p: ForumPost)
    ensures
        p.deep_view() == post_of(doc.source@, article.deep_view(), f.view_of()),
{
    let id = match node_attr(article, "data-post-id") {
        Some(v) => v,
        None => String::new(),
    };
    let content = match select_first(article, &f.fullmessage) {
        Some(fm) => {
            let h = outer_html(doc, fm);
            trim_str(h.as_str())
        }
        None => match select_first(article, &f.content_container) {
            Some(cc) => {
                let h = outer_html(doc, cc);
                trim_str(h.as_str())
            }
            None => String::new(),
        },
    };
    ForumPost {
        id,
        subject: first_text_or_empty_exec(article, &f.subject),
        author: first_text_or_empty_exec(article, &f.author),
        time: first_text_or_empty_exec(article, &f.time),
        content,
    }
}

/// Reads a discussion page (see [`discussion_of`]); it never fails.
pub fn parse_discussion_html(html: &str, discuss_id: String) -> (r: Result<DiscussionDetails, ErrorResponse>)
    ensures
        r matches Ok(d) && d.deep_view() == discussion_of(html@, discuss_id@),
{
    let document = parse_document(html);
    let title_flags = flags_for(&document, ".discussionname, h3.discussionname");
    let title = page_first_text_or_empty_exec(&document.root, &title_flags);
    let article_flags = flags_for(&document, "article[data-region=\"post\"]");
    let f = DiscussionFlags {
        subject: flags_for(&document, "[data-region-content=\"forum-post-core-subject\"], .post-heading"),
        author: flags_for(&document, ".author-time-info a, .post-footer a"),
        time: flags_for(&document, ".author-time-info time, .post-footer time"),
        fullmessage: flags_for(&document, ".fullmessage"),
        content_container: flags_for(&document, ".post-content-container"),
    };
    assert(f.view_of() == discussion_selectors(html@));
    let articles = select_all_in_page(&document.root, &article_flags);
    let ghost av = articles.deep_view();
    let mut posts: Vec<ForumPost> = Vec::new();
    let mut i: usize = 0;
    assert(av.take(0) =~= Seq::<TreeView>::empty());
    while i < articles.len()
        invariant
            i <= articles@.len(),
            av == articles.deep_view(),
            document.source@ == html@,
            posts.deep_view() == posts_of(html@, av.take(i as int), f.view_of()),
        decreases articles@.len() - i,
    {
        let ghost before = posts.deep_view();
        assert(av.take(i + 1).drop_last() =~= av.take(i as int));
        assert(av.take(i + 1).last() == articles[i as int].deep_view());
        let p = post_of_exec(&document, articles[i], &f);
        posts.push(p);
        assert(posts.deep_view() =~= before + seq![p.deep_view()]);
        i += 1;
    }
    assert(av.take(articles@.len() as int) =~= av);
    Ok(DiscussionDetails { id: discuss_id, title, posts })
}


/// The address of a forum's page.
pub fn forum_page_url(forum_id: &str) -> (url: String)
    ensures
        url@ == "https://ekursy.put.poznan.pl/mod/forum/view.php?id="@ + forum_id@,
{
    let mut url = copy_str("https://ekursy.put.poznan.pl/mod/forum/view.php?id=");
    url.append(forum_id);
    url
}

/// The address of a discussion's page.
pub fn discussion_page_url(discuss_id: &str) -> (url: String)
    ensures
        url@ == "https://ekursy.put.poznan.pl/mod/forum/discuss.php?d="@ + discuss_id@,
{
    let mut url = copy_str("https://ekursy.put.poznan.pl/mod/forum/discuss.php?d=");
    url.append(discuss_id);
    url
}

} // verus!
