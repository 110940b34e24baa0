//! Rendering a site: markdown to HTML, and the rendered posts into the
//! site's templates, newest first.

use crate::driftwood::{join, joined};
use crate::text::{
    begins_with, comes_before, find_nth_word, join_text, lemma_text_less_irreflexive,
    lemma_text_less_transitive, lines, lines_of, nth_word, pairs_view, replace, replaced, same_text,
    split, split_on, starts_with, strings_view, substring, text_less, to_chars, trim, trimmed,
};
use vstd::prelude::*;

verus! {

/// The HTML that `pulldown_cmark` renders the markdown text `markdown` to.
pub uninterp spec fn markdown_html(markdown: Seq<char>) -> Seq<char>;

/// Calls `pulldown_cmark::Parser::new` and `pulldown_cmark::html::push_html`
/// on an empty string. The contract only names the result.
#[verifier::external_body]
fn push_markdown_html(markdown: &str) -> (r: String)
    ensures
        r@ == markdown_html(markdown@),
{
    let mut html = String::new();
    pulldown_cmark::html::push_html(&mut html, pulldown_cmark::Parser::new(markdown));
    html
}

/// What `tinytemplate` renders the template `template`, compiled under the
/// name `name` and without HTML escaping, to when the context is the object
/// whose string members are `fields`; `None` where the template does not
/// compile or does not render.
pub uninterp spec fn template_rendering(
    name: Seq<char>,
    template: Seq<char>,
    fields: Seq<(Seq<char>, Seq<char>)>,
) -> Option<Seq<char>>;

/// Whether `c` may stand inside a value tag of a plain template: an ASCII
/// letter, a digit, `_`, `.` or a space.
pub open spec fn is_tag_char(c: char) -> bool {
    ('a' <= c && c <= 'z') || ('A' <= c && c <= 'Z') || ('0' <= c && c <= '9') || c == '_' || c
        == '.' || c == ' '
}

/// The first position at or after `i` that holds no tag character, or the
/// length of `t` where only tag characters follow.
pub open spec fn tag_end(t: Seq<char>, i: int) -> int
    decreases t.len() - i,
{
    if 0 <= i < t.len() && is_tag_char(t[i]) {
        tag_end(t, i + 1)
    } else {
        i
    }
}

/// Whether the brace at position `i` of `t` opens a value tag: tag
/// characters follow it up to a closing brace.
pub open spec fn is_value_tag_at(t: Seq<char>, i: int) -> bool {
    tag_end(t, i + 1) < t.len() && t[tag_end(t, i + 1)] == '}'
}

/// Whether `content`, the text between the braces of a block tag, is that of
/// a tag that decides: its first word is `if`, `else` or `endif`, and where
/// what follows `if` begins with `not`, at least one more character follows.
pub open spec fn is_plain_block(content: Seq<char>) -> bool {
    match nth_word(content, 0, 0) {
        None => false,
        Some((start, end)) => {
            let word = content.subrange(start, end);
            let rest = trimmed(content.skip(end));
            ||| (word == "if"@ && (rest.len() >= 4 || !begins_with(rest, "not"@)))
            ||| word == "else"@
            ||| word == "endif"@
        },
    }
}

/// Whether the brace at position `i` of `t` opens a block tag: a second
/// brace follows it, then tag characters up to two closing braces, and what
/// stands between the braces is the text of a tag that decides.
pub open spec fn is_block_tag_at(t: Seq<char>, i: int) -> bool {
    let end = tag_end(t, i + 2);
    &&& i + 1 < t.len()
    &&& t[i + 1] == '{'
    &&& end + 1 < t.len()
    &&& t[end] == '}'
    &&& t[end + 1] == '}'
    &&& is_plain_block(t.subrange(i + 2, end))
}

/// Whether `t` is a plain template: text in which every opening brace either
/// follows a backslash, and so stands for itself, or opens a value tag or a
/// block tag that decides, and which does not end in a backslash. Such a
/// template holds no comments, no loops, no calls of other templates, no
/// formatters and no keywords.
pub open spec fn is_plain_template(t: Seq<char>) -> bool {
    &&& t.len() > 0 ==> t.last() != '\\'
    &&& forall|i: int|
        0 <= i < t.len() && #[trigger] t[i] == '{' && !(i > 0 && t[i - 1] == '\\')
            ==> is_value_tag_at(t, i) || is_block_tag_at(t, i)
}

/// Whether `c` may stand inside a value tag.
fn char_is_tag_char(c: char) -> (r: bool)
    ensures
        r == is_tag_char(c),
{
    ('a' <= c && c <= 'z') || ('A' <= c && c <= 'Z') || ('0' <= c && c <= '9') || c == '_' || c
        == '.' || c == ' '
}

/// Computes [`tag_end`].
fn find_tag_end(t: &Vec<char>, i: usize) -> (r: usize)
    requires
        i <= t.len(),
    ensures
        r == tag_end(t@, i as int),
        i <= r <= t.len(),
{
    let mut j: usize = i;
    while j < t.len() && char_is_tag_char(t[j])
        invariant
            i <= j <= t.len(),
            tag_end(t@, i as int) == tag_end(t@, j as int),
        decreases t.len() - j,
    {
        j += 1;
    }
    j
}

/// Whether `content` is the text of a block tag that decides.
pub fn block_is_plain(content: &str) -> (r: bool)
    ensures
        r == is_plain_block(content@),
{
    let chars = to_chars(content);
    match find_nth_word(&chars, 0, 0) {
        None => false,
        Some((start, end)) => {
            let word = substring(&chars, start, end);
            let after = substring(&chars, end, chars.len());
            assert(chars@.subrange(end as int, chars.len() as int) =~= content@.skip(end as int));
            let rest = trim(after.as_str());
            proof {
                reveal_strlit("if");
                reveal_strlit("else");
                reveal_strlit("endif");
                assert("if"@.len() == 2 && "else"@.len() == 4 && "endif"@.len() == 5);
            }
            if same_text(word.as_str(), "if") {
                rest.as_str().unicode_len() >= 4 || !starts_with(rest.as_str(), "not")
            } else {
                same_text(word.as_str(), "else") || same_text(word.as_str(), "endif")
            }
        },
    }
}

/// Whether the brace at position `i` opens a block tag.
fn block_tag_at(t: &Vec<char>, i: usize) -> (r: bool)
    requires
        i < t.len(),
    ensures
        r == is_block_tag_at(t@, i as int),
{
    let n = t.len();
    if !(i + 1 < n && t[i + 1] == '{') {
        return false;
    }
    let end = find_tag_end(t, i + 2);
    if !(end < n - 1 && t[end] == '}' && t[end + 1] == '}') {
        return false;
    }
    block_is_plain(substring(t, i + 2, end).as_str())
}

/// Whether `template` is a plain template.
pub fn template_is_plain(template: &str) -> (r: bool)
    ensures
        r == is_plain_template(template@),
{
    let t = to_chars(template);
    let n = t.len();
    if n > 0 && t[n - 1] == '\\' {
        return false;
    }
    let mut i: usize = 0;
    while i < n
        invariant
            i <= n,
            n == t.len(),
            t@ == template@,
            n > 0 ==> t@.last() != '\\',
            forall|k: int|
                0 <= k < i && #[trigger] t@[k] == '{' && !(k > 0 && t@[k - 1] == '\\')
                    ==> is_value_tag_at(t@, k) || is_block_tag_at(t@, k),
        decreases n - i,
    {
        if t[i] == '{' && !(i > 0 && t[i - 1] == '\\') {
            let end = find_tag_end(&t, i + 1);
            let value = end < n && t[end] == '}';
            assert(value == is_value_tag_at(t@, i as int));
            if !value && !block_tag_at(&t, i) {
                return false;
            }
        }
        i += 1;
    }
    true
}

/// What a template renders to here: what `tinytemplate` renders it to where
/// it is a plain template, and nothing where it is not.
pub open spec fn rendering(
    name: Seq<char>,
    template: Seq<char>,
    fields: Seq<(Seq<char>, Seq<char>)>,
) -> Option<Seq<char>> {
    if is_plain_template(template) {
        template_rendering(name, template, fields)
    } else {
        None
    }
}

/// Calls `tinytemplate::TinyTemplate::new`, `set_default_formatter` with
/// `tinytemplate::format_unescaped`, `add_template` and `render`, with a
/// `serde_json::Value` object made of `fields` as the context. The contract
/// only names the result. The template has to be plain: on some other texts
/// the crate's compiler slices tags by fixed offsets that do not fit, and the
/// renderer of loops, calls and keywords was not followed to its end.
#[verifier::external_body]
fn render_template(name: &str, template: &str, fields: &Vec<(String, String)>) -> (r: Option<
    String,
>)
    requires
        is_plain_template(template@),
    ensures
        match r {
            Some(text) => template_rendering(name@, template@, pairs_view(fields@)) == Some(text@),
            None => template_rendering(name@, template@, pairs_view(fields@)) is None,
        },
{
    let mut context = serde_json::Map::new();
    for (key, value) in fields {
        context.insert(key.clone(), serde_json::Value::String(value.clone()));
    }
    let mut engine = tinytemplate::TinyTemplate::new();
    engine.set_default_formatter(&tinytemplate::format_unescaped);
    engine.add_template(name, template).ok()?;
    engine.render(name, &serde_json::Value::Object(context)).ok()
}

/// Renders the template `template` under the name `name` with the string
/// members `fields` as its context. A template that is not plain is not
/// handed to the engine and renders to nothing.
pub fn render_plain(name: &str, template: &str, fields: &Vec<(String, String)>) -> (r: Option<
    String,
>)
    ensures
        match r {
            Some(text) => rendering(name@, template@, pairs_view(fields@)) == Some(text@),
            None => rendering(name@, template@, pairs_view(fields@)) is None,
        },
{
    if template_is_plain(template) {
        render_template(name, template, fields)
    } else {
        None
    }
}

/// Renders markdown text to HTML.
pub fn read_and_parse(md_input: &str) -> (html_output: String)
    ensures
        html_output@ == markdown_html(md_input@),
{
    push_markdown_html(md_input)
}

/// What a rendered post says of itself, and what is left of it.
pub struct PostParts {
    /// The post's date, as its `date:` line gives it.
    pub date: String,
    /// The post's tags, as its `tags:` line lists them.
    pub tags: Vec<String>,
    /// The post's excerpt, as its `excerpt:` lines give it.
    pub excerpt: String,
    /// The address of the post's image, as its `image:` lines give it.
    pub image: String,
    /// The lines that are none of these, each followed by a line feed and a
    /// carriage return.
    pub body: String,
}

/// [`PostParts`] as the contracts see them.
pub struct PartsModel {
    pub date: Seq<char>,
    pub tags: Seq<Seq<char>>,
    pub excerpt: Seq<char>,
    pub image: Seq<char>,
    pub body: Seq<char>,
}

impl View for PostParts {
    type V = PartsModel;

    open spec fn view(&self) -> PartsModel {
        PartsModel {
            date: self.date@,
            tags: strings_view(self.tags@),
            excerpt: self.excerpt@,
            image: self.image@,
            body: self.body@,
        }
    }
}

/// What is left of `line` once every `label` is taken out of it and white
/// space at its ends is dropped.
pub open spec fn labelled_value(line: Seq<char>, label: Seq<char>) -> Seq<char> {
    trimmed(replaced(line, label, Seq::empty()))
}

/// The parts after one more line: a line that begins, white space aside,
/// with `<p>date:` sets the date; one that begins with `excerpt:` or
/// `image:` adds to the excerpt or the image; one that begins with `tags:`
/// sets the tags; any other line goes to the body.
pub open spec fn parts_after_line(parts: PartsModel, line: Seq<char>) -> PartsModel {
    let start = trimmed(line);
    if begins_with(start, "<p>date:"@) {
        PartsModel { date: labelled_value(line, "<p>date:"@), ..parts }
    } else if begins_with(start, "excerpt:"@) {
        PartsModel { excerpt: parts.excerpt + labelled_value(line, "excerpt:"@), ..parts }
    } else if begins_with(start, "image:"@) {
        PartsModel { image: parts.image + labelled_value(line, "image:"@), ..parts }
    } else if begins_with(start, "tags:"@) {
        PartsModel { tags: split_on(labelled_value(line, "tags:"@), ','), ..parts }
    } else {
        PartsModel { body: parts.body + line + "\n\r"@, ..parts }
    }
}

/// The parts of a post whose first `n` lines are those of `lines`.
pub open spec fn parts_of_lines(lines: Seq<Seq<char>>, n: int) -> PartsModel
    decreases n,
{
    if n <= 0 {
        PartsModel {
            date: Seq::empty(),
            tags: Seq::empty(),
            excerpt: Seq::empty(),
            image: Seq::empty(),
            body: Seq::empty(),
        }
    } else {
        parts_after_line(parts_of_lines(lines, n - 1), lines[n - 1])
    }
}

/// The parts of the rendered post `html`.
pub open spec fn parts_of(html: Seq<char>) -> PartsModel {
    parts_of_lines(lines_of(html), lines_of(html).len() as int)
}

/// Computes [`labelled_value`].
fn value_after_label(line: &str, label: &str) -> (r: String)
    ensures
        r@ == labelled_value(line@, label@),
{
    let empty = "";
    proof {
        reveal_strlit("");
        assert(empty@ =~= Seq::<char>::empty());
    }
    trim(replace(line, label, empty).as_str())
}

/// Takes a rendered post apart.
pub fn post_parts(html: &str) -> (r: PostParts)
    ensures
        r@ == parts_of(html@),
{
    let all = lines(html);
    let ghost model = strings_view(all@);
    let mut parts = PostParts {
        date: String::new(),
        tags: Vec::new(),
        excerpt: String::new(),
        image: String::new(),
        body: String::new(),
    };
    proof {
        assert(strings_view(parts.tags@) =~= Seq::<Seq<char>>::empty());
    }
    let mut i: usize = 0;
    while i < all.len()
        invariant
            i <= all.len(),
            model == strings_view(all@),
            parts@ == parts_of_lines(model, i as int),
        decreases all.len() - i,
    {
        let line = all[i].as_str();
        assert(line@ == model[i as int]);
        let ghost before = parts@;
        let start = trim(line);
        if starts_with(start.as_str(), "<p>date:") {
            parts.date = value_after_label(line, "<p>date:");
        } else if starts_with(start.as_str(), "excerpt:") {
            parts.excerpt.append(value_after_label(line, "excerpt:").as_str());
        } else if starts_with(start.as_str(), "image:") {
            parts.image.append(value_after_label(line, "image:").as_str());
        } else if starts_with(start.as_str(), "tags:") {
            parts.tags = split(value_after_label(line, "tags:").as_str(), ',');
        } else {
            parts.body.append(line);
            parts.body.append("\n\r");
        }
        assert(parts@ == parts_after_line(before, line@));
        i += 1;
    }
    parts
}

/// The title of the post in the file named `file_name`: the name without
/// `.html` and `.md`, with spaces for its dashes.
pub open spec fn title_of(file_name: Seq<char>) -> Seq<char> {
    replaced(replaced(replaced(file_name, ".html"@, Seq::empty()), ".md"@, Seq::empty()), "-"@, " "@)
}

/// The title of the post in the file named `file_name`.
pub fn post_title(file_name: &str) -> (r: String)
    ensures
        r@ == title_of(file_name@),
{
    let empty = "";
    proof {
        reveal_strlit("");
        assert(empty@ =~= Seq::<char>::empty());
    }
    let without_html = replace(file_name, ".html", empty);
    let without_md = replace(without_html.as_str(), ".md", empty);
    replace(without_md.as_str(), "-", " ")
}

/// The first position at or after `p` of `order` whose date comes before the
/// date at `k`, or the length of `order` where there is none.
pub open spec fn insert_position(order: Seq<int>, dates: Seq<Seq<char>>, k: int, p: int) -> int
    decreases order.len() - p,
{
    if p < 0 || p >= order.len() {
        order.len() as int
    } else if text_less(dates[order[p]], dates[k]) {
        p
    } else {
        insert_position(order, dates, k, p + 1)
    }
}

/// The positions of the first `n` of `dates`, latest date first; of two
/// equal dates the one that stands first in `dates` comes first.
pub open spec fn newest_first_prefix(dates: Seq<Seq<char>>, n: int) -> Seq<int>
    decreases n,
{
    if n <= 0 {
        Seq::empty()
    } else {
        let earlier = newest_first_prefix(dates, n - 1);
        earlier.insert(insert_position(earlier, dates, n - 1, 0), n - 1)
    }
}

/// The positions of `dates`, latest date first.
pub open spec fn newest_first(dates: Seq<Seq<char>>) -> Seq<int> {
    newest_first_prefix(dates, dates.len() as int)
}

/// [`insert_position`] stays inside the order.
pub proof fn lemma_insert_position(order: Seq<int>, dates: Seq<Seq<char>>, k: int, p: int)
    requires
        0 <= p <= order.len(),
    ensures
        p <= insert_position(order, dates, k, p) <= order.len(),
        forall|q: int|
            p <= q < insert_position(order, dates, k, p) ==> !text_less(
                dates[#[trigger] order[q]],
                dates[k],
            ),
        insert_position(order, dates, k, p) < order.len() ==> text_less(
            dates[order[insert_position(order, dates, k, p)]],
            dates[k],
        ),
    decreases order.len() - p,
{
    if p < order.len() && !text_less(dates[order[p]], dates[k]) {
        lemma_insert_position(order, dates, k, p + 1);
    }
}

/// [`newest_first_prefix`] lists `n` positions, each below `n`.
pub proof fn lemma_newest_first_bounds(dates: Seq<Seq<char>>, n: int)
    requires
        0 <= n,
    ensures
        newest_first_prefix(dates, n).len() == n,
        forall|p: int| 0 <= p < n ==> 0 <= #[trigger] newest_first_prefix(dates, n)[p] < n,
    decreases n,
{
    if n > 0 {
        lemma_newest_first_bounds(dates, n - 1);
        let earlier = newest_first_prefix(dates, n - 1);
        lemma_insert_position(earlier, dates, n - 1, 0);
    }
}

/// The order that [`newest_first_prefix`] gives is the one asked for: it
/// holds each of the first `n` positions, no date comes before a date that
/// follows it, and of two equal dates the one that stands first in `dates`
/// comes first.
pub proof fn lemma_newest_first(dates: Seq<Seq<char>>, n: int)
    requires
        0 <= n <= dates.len(),
    ensures
        newest_first_prefix(dates, n).len() == n,
        forall|i: int| 0 <= i < n ==> newest_first_prefix(dates, n).contains(i),
        forall|p: int, q: int|
            0 <= p < q < n ==> !text_less(
                dates[#[trigger] newest_first_prefix(dates, n)[p]],
                dates[#[trigger] newest_first_prefix(dates, n)[q]],
            ),
        forall|p: int, q: int|
            0 <= p < q < n && dates[#[trigger] newest_first_prefix(dates, n)[p]]
                == dates[#[trigger] newest_first_prefix(dates, n)[q]] ==> newest_first_prefix(
                dates,
                n,
            )[p] < newest_first_prefix(dates, n)[q],
    decreases n,
{
    if n > 0 {
        let k = n - 1;
        let old_order = newest_first_prefix(dates, k);
        let at = insert_position(old_order, dates, k, 0);
        let order = newest_first_prefix(dates, n);
        lemma_newest_first(dates, k);
        lemma_newest_first_bounds(dates, k);
        lemma_newest_first_bounds(dates, n);
        lemma_insert_position(old_order, dates, k, 0);
        assert(order == old_order.insert(at, k));
        assert forall|i: int| 0 <= i < n implies order.contains(i) by {
            if i == k {
                assert(order[at] == k);
            } else {
                assert(old_order.contains(i));
                let p = choose|p: int| 0 <= p < old_order.len() && old_order[p] == i;
                if p < at {
                    assert(order[p] == i);
                } else {
                    assert(order[p + 1] == i);
                }
            }
        }
        assert forall|p: int, q: int| 0 <= p < q < n implies !text_less(
            dates[#[trigger] order[p]],
            dates[#[trigger] order[q]],
        ) && (dates[order[p]] == dates[order[q]] ==> order[p] < order[q]) by {
            if q < at {
                assert(order[p] == old_order[p] && order[q] == old_order[q]);
            } else if q == at {
                assert(order[p] == old_order[p]);
                assert(!text_less(dates[old_order[p]], dates[k]));
                assert(0 <= old_order[p] < k);
            } else if p == at {
                assert(order[q] == old_order[q - 1]);
                assert(text_less(dates[old_order[at]], dates[k]));
                if at < q - 1 {
                    assert(!text_less(dates[old_order[at]], dates[old_order[q - 1]]));
                } else {
                    lemma_text_less_irreflexive(dates[old_order[at]]);
                }
                if text_less(dates[k], dates[old_order[q - 1]]) {
                    lemma_text_less_transitive(
                        dates[old_order[at]],
                        dates[k],
                        dates[old_order[q - 1]],
                    );
                }
            } else if p < at {
                assert(order[p] == old_order[p] && order[q] == old_order[q - 1]);
            } else {
                assert(order[p] == old_order[p - 1] && order[q] == old_order[q - 1]);
            }
        }
    }
}

/// Orders the positions of `dates`, latest date first.
pub fn order_newest_first(dates: &Vec<String>) -> (order: Vec<usize>)
    ensures
        order@.map_values(|i: usize| i as int) == newest_first(strings_view(dates@)),
        order@.len() == dates@.len(),
        forall|p: int| 0 <= p < order@.len() ==> #[trigger] order@[p] < dates@.len(),
{
    let ghost model = strings_view(dates@);
    let mut order: Vec<usize> = Vec::new();
    let mut k: usize = 0;
    proof {
        assert(order@.map_values(|i: usize| i as int) =~= newest_first_prefix(model, 0));
    }
    while k < dates.len()
        invariant
            k <= dates.len(),
            model == strings_view(dates@),
            order@.len() == k,
            forall|p: int| 0 <= p < order@.len() ==> #[trigger] order@[p] < k,
            order@.map_values(|i: usize| i as int) == newest_first_prefix(model, k as int),
        decreases dates.len() - k,
    {
        let ghost earlier = order@.map_values(|i: usize| i as int);
        let mut p: usize = 0;
        while p < order.len() && !comes_before(dates[order[p]].as_str(), dates[k].as_str())
            invariant
                p <= order.len(),
                k < dates.len(),
                model == strings_view(dates@),
                earlier == order@.map_values(|i: usize| i as int),
                forall|q: int| 0 <= q < order@.len() ==> #[trigger] order@[q] < k,
                insert_position(earlier, model, k as int, 0) == insert_position(
                    earlier,
                    model,
                    k as int,
                    p as int,
                ),
            decreases order.len() - p,
        {
            assert(earlier[p as int] == order@[p as int]);
            p += 1;
        }
        proof {
            if p < order.len() {
                assert(earlier[p as int] == order@[p as int]);
            }
        }
        order.insert(p, k);
        assert(order@.map_values(|i: usize| i as int) =~= earlier.insert(p as int, k as int));
        k += 1;
    }
    order
}

/// The three templates of a site.
pub struct Templates {
    /// The card that stands for a post on the front page.
    pub card: String,
    /// The page of a post.
    pub post: String,
    /// The front page.
    pub index: String,
}

/// A page: the name of its file, and its HTML.
pub struct Page {
    pub file_name: String,
    pub html: String,
}

/// A page as the contracts see it: the name of its file, then its HTML.
pub type PageModel = (Seq<char>, Seq<char>);

impl View for Page {
    type V = PageModel;

    open spec fn view(&self) -> PageModel {
        (self.file_name@, self.html@)
    }
}

/// Pages as the contracts see them.
pub open spec fn pages_view(pages: Seq<Page>) -> Seq<PageModel> {
    pages.map_values(|p: Page| p@)
}

/// A site in its templates: the page of each post, newest first, and the
/// front page.
pub struct SitePages {
    pub posts: Vec<Page>,
    pub index: String,
}

/// Why a site could not be put into its templates.
#[derive(Debug, Clone, Copy, PartialEq, Eq, Structural)]
pub enum RenderError {
    /// A template did not compile or did not render.
    Template,
}

/// The context of a post's card.
pub open spec fn card_fields(
    file_name: Seq<char>,
    parts: PartsModel,
    site_name: Seq<char>,
) -> Seq<(Seq<char>, Seq<char>)> {
    seq![
        ("filename"@, "posts/"@ + file_name),
        ("title"@, title_of(file_name)),
        ("date"@, parts.date),
        ("excerpt"@, parts.excerpt),
        ("image"@, parts.image),
        ("sitename"@, site_name),
        ("tags"@, joined(parts.tags, ", "@)),
    ]
}

/// The context of a post's page.
pub open spec fn post_fields(
    file_name: Seq<char>,
    parts: PartsModel,
    site_name: Seq<char>,
) -> Seq<(Seq<char>, Seq<char>)> {
    seq![
        ("title"@, title_of(file_name)),
        ("content"@, parts.body),
        ("date"@, parts.date),
        ("sitename"@, site_name),
    ]
}

/// The context of the front page.
pub open spec fn index_fields(site_name: Seq<char>, cards: Seq<char>) -> Seq<
    (Seq<char>, Seq<char>),
> {
    seq![("sitename"@, site_name), ("blog_cards"@, cards)]
}

/// The pages of the posts at the first `n` positions of `order`, and their
/// cards one after the other; `None` where a template failed.
pub open spec fn rendered_posts(
    posts: Seq<PageModel>,
    order: Seq<int>,
    n: int,
    site_name: Seq<char>,
    card: Seq<char>,
    post: Seq<char>,
) -> Option<(Seq<PageModel>, Seq<char>)>
    decreases n,
{
    if n <= 0 {
        Some((Seq::empty(), Seq::empty()))
    } else {
        let page = posts[order[n - 1]];
        let parts = parts_of(page.1);
        match (
            rendered_posts(posts, order, n - 1, site_name, card, post),
            rendering("card"@, card, card_fields(page.0, parts, site_name)),
            rendering("post"@, post, post_fields(page.0, parts, site_name)),
        ) {
            (Some(earlier), Some(card_html), Some(post_html)) => Some(
                (earlier.0.push((page.0, post_html)), earlier.1 + card_html),
            ),
            _ => None,
        }
    }
}

/// The site whose rendered posts are `posts` in its templates: the posts
/// ordered by their dates, newest first, each on its page, and the front
/// page with the cards of all of them; `None` where a template failed.
pub open spec fn site_in_templates(
    posts: Seq<PageModel>,
    site_name: Seq<char>,
    card: Seq<char>,
    post: Seq<char>,
    index: Seq<char>,
) -> Option<(Seq<PageModel>, Seq<char>)> {
    let dates = posts.map_values(|p: PageModel| parts_of(p.1).date);
    match rendered_posts(posts, newest_first(dates), posts.len() as int, site_name, card, post) {
        Some((pages, cards)) => match rendering(
            "index"@,
            index,
            index_fields(site_name, cards),
        ) {
            Some(index_html) => Some((pages, index_html)),
            None => None,
        },
        None => None,
    }
}

/// A pair of a context: a name and a value.
fn field(name: &str, value: &str) -> (r: (String, String))
    ensures
        r.0@ == name@,
        r.1@ == value@,
{
    (String::from_str(name), String::from_str(value))
}

/// Renders the card of a post.
fn render_card(file_name: &str, parts: &PostParts, site_name: &str, template: &str) -> (r: Option<
    String,
>)
    ensures
        match r {
            Some(html) => rendering(
                "card"@,
                template@,
                card_fields(file_name@, parts@, site_name@),
            ) == Some(html@),
            None => rendering(
                "card"@,
                template@,
                card_fields(file_name@, parts@, site_name@),
            ) is None,
        },
{
    let mut fields: Vec<(String, String)> = Vec::new();
    fields.push(field("filename", join_text("posts/", file_name).as_str()));
    fields.push(field("title", post_title(file_name).as_str()));
    fields.push(field("date", parts.date.as_str()));
    fields.push(field("excerpt", parts.excerpt.as_str()));
    fields.push(field("image", parts.image.as_str()));
    fields.push(field("sitename", site_name));
    fields.push(field("tags", join(&parts.tags, ", ").as_str()));
    assert(pairs_view(fields@) =~= card_fields(file_name@, parts@, site_name@));
    render_plain("card", template, &fields)
}

/// Renders the page of a post.
fn render_post(file_name: &str, parts: &PostParts, site_name: &str, template: &str) -> (r: Option<
    String,
>)
    ensures
        match r {
            Some(html) => rendering(
                "post"@,
                template@,
                post_fields(file_name@, parts@, site_name@),
            ) == Some(html@),
            None => rendering(
                "post"@,
                template@,
                post_fields(file_name@, parts@, site_name@),
            ) is None,
        },
{
    let mut fields: Vec<(String, String)> = Vec::new();
    fields.push(field("title", post_title(file_name).as_str()));
    fields.push(field("content", parts.body.as_str()));
    fields.push(field("date", parts.date.as_str()));
    fields.push(field("sitename", site_name));
    assert(pairs_view(fields@) =~= post_fields(file_name@, parts@, site_name@));
    render_plain("post", template, &fields)
}

/// A result as the contracts see it.
pub open spec fn site_pages_view(r: Result<SitePages, RenderError>) -> Option<
    (Seq<PageModel>, Seq<char>),
> {
    match r {
        Ok(site) => Some((pages_view(site.posts@), site.index@)),
        Err(_) => None,
    }
}

/// Puts the rendered posts `posts` of the site named `site_name` into the
/// site's templates: takes each post apart, orders the posts by date, newest
/// first, renders the page and the card of each, and the front page with all
/// the cards.
pub fn template_html(posts: &Vec<Page>, site_name: &str, templates: &Templates) -> (r: Result<
    SitePages,
    RenderError,
>)
    ensures
        site_pages_view(r) == site_in_templates(
            pages_view(posts@),
            site_name@,
            templates.card@,
            templates.post@,
            templates.index@,
        ),
{
    let ghost model = pages_view(posts@);
    let ghost date_model = model.map_values(|p: PageModel| parts_of(p.1).date);
    let mut parts: Vec<PostParts> = Vec::new();
    let mut dates: Vec<String> = Vec::new();
    let mut i: usize = 0;
    while i < posts.len()
        invariant
            i <= posts.len(),
            model == pages_view(posts@),
            date_model == model.map_values(|p: PageModel| parts_of(p.1).date),
            parts@.len() == i,
            dates@.len() == i,
            forall|j: int| 0 <= j < i ==> (#[trigger] parts@[j])@ == parts_of(model[j].1),
            strings_view(dates@) == date_model.take(i as int),
        decreases posts.len() - i,
    {
        let ghost before = strings_view(dates@);
        let taken = post_parts(posts[i].html.as_str());
        assert(posts@[i as int]@ == model[i as int]);
        let date = taken.date.clone();
        dates.push(date);
        parts.push(taken);
        assert(strings_view(dates@) =~= before.push(date@));
        assert(date_model.take(i + 1) =~= date_model.take(i as int).push(date_model[i as int]));
        i += 1;
    }
    assert(date_model.take(posts.len() as int) =~= date_model);
    let order = order_newest_first(&dates);
    let ghost order_model = order@.map_values(|i: usize| i as int);
    let mut pages: Vec<Page> = Vec::new();
    let mut cards = String::new();
    let mut k: usize = 0;
    proof {
        assert(pages_view(pages@) =~= Seq::<PageModel>::empty());
    }
    while k < order.len()
        invariant
            k <= order.len(),
            order@.len() == posts@.len(),
            parts@.len() == posts@.len(),
            model == pages_view(posts@),
            order_model == order@.map_values(|i: usize| i as int),
            order_model == newest_first(model.map_values(|p: PageModel| parts_of(p.1).date)),
            forall|p: int| 0 <= p < order@.len() ==> #[trigger] order@[p] < posts@.len(),
            forall|j: int| 0 <= j < parts@.len() ==> (#[trigger] parts@[j])@ == parts_of(model[j].1),
            rendered_posts(
                model,
                order_model,
                k as int,
                site_name@,
                templates.card@,
                templates.post@,
            ) == Some((pages_view(pages@), cards@)),
        decreases order.len() - k,
    {
        let at = order[k];
        assert(order_model[k as int] == at);
        assert(posts@[at as int]@ == model[at as int]);
        let ghost before = pages_view(pages@);
        let file_name = posts[at].file_name.as_str();
        let card = render_card(file_name, &parts[at], site_name, templates.card.as_str());
        let page = render_post(file_name, &parts[at], site_name, templates.post.as_str());
        match (card, page) {
            (Some(card_html), Some(post_html)) => {
                cards.append(card_html.as_str());
                let name = String::from_str(file_name);
                pages.push(Page { file_name: name, html: post_html });
                assert(pages_view(pages@) =~= before.push((file_name@, post_html@)));
            },
            _ => {
                proof {
                    assert(rendered_posts(
                        model,
                        order_model,
                        k as int + 1,
                        site_name@,
                        templates.card@,
                        templates.post@,
                    ) is None);
                    lemma_rendered_posts_fail(
                        model,
                        order_model,
                        k as int + 1,
                        site_name@,
                        templates.card@,
                        templates.post@,
                    );
                }
                return Err(RenderError::Template);
            },
        }
        k += 1;
    }
    let mut fields: Vec<(String, String)> = Vec::new();
    fields.push(field("sitename", site_name));
    fields.push(field("blog_cards", cards.as_str()));
    assert(pairs_view(fields@) =~= index_fields(site_name@, cards@));
    match render_plain("index", templates.index.as_str(), &fields) {
        Some(index) => Ok(SitePages { posts: pages, index }),
        None => Err(RenderError::Template),
    }
}

/// Once a post could not be rendered, the site cannot.
proof fn lemma_rendered_posts_fail(
    posts: Seq<PageModel>,
    order: Seq<int>,
    n: int,
    site_name: Seq<char>,
    card: Seq<char>,
    post: Seq<char>,
)
    requires
        0 <= n <= order.len(),
        rendered_posts(posts, order, n, site_name, card, post) is None,
    ensures
        rendered_posts(posts, order, order.len() as int, site_name, card, post) is None,
    decreases order.len() - n,
{
    if n < order.len() {
        lemma_rendered_posts_fail(posts, order, n + 1, site_name, card, post);
    }
}

} // verus!
