//! Sites and posts as the publishing pipeline sees them, and where their
//! files live on disk.

use crate::text::{
    char_is_whitespace, is_whitespace, join_text, split, split_on, strings_view, to_chars, trim,
    trimmed,
};
use vstd::prelude::*;

verus! {

/// The identity and metadata of a site at the hosting provider. `required`
/// is set only in the provider's reply to a submitted manifest: the digests
/// of the artifacts that it still needs.
#[derive(Debug, Clone)]
pub struct SiteDetails {
    pub name: Option<String>,
    pub domain: Option<String>,
    pub id: Option<String>,
    pub ssl: Option<bool>,
    pub url: Option<String>,
    pub screenshot_url: Option<String>,
    pub password: Option<String>,
    pub required: Option<Vec<String>>,
}

/// The settings and options of a site that is about to be created.
#[derive(Debug, Clone)]
pub struct NewSite {
    pub site_name: String,
    pub custom_domain: String,
    pub favicon_file: String,
    pub template: String,
    pub password_enabled: bool,
    pub password: String,
    pub rss_enabled: bool,
}

/// The directory of the site named `name` with the identifier `id`.
pub open spec fn site_path(name: Seq<char>, id: Seq<char>) -> Seq<char> {
    "sites/"@ + name + "_"@ + id
}

/// The site to ask the provider for, given the settings of a new site: it
/// has the new site's name; its domain is the custom domain, where one is
/// given; its password is the new site's, where passwords are enabled; and
/// everything that only the provider can say is left open.
pub fn site_of_new_site(site: &NewSite) -> (r: SiteDetails)
    ensures
        r.name is Some,
        r.name->0@ == site.site_name@,
        match r.domain {
            Some(domain) => site.custom_domain@.len() > 0 && domain@ == site.custom_domain@,
            None => site.custom_domain@.len() == 0,
        },
        match r.password {
            Some(password) => site.password_enabled && password@ == site.password@,
            None => !site.password_enabled,
        },
        r.id is None,
        r.ssl is None,
        r.url is None,
        r.screenshot_url is None,
        r.required is None,
{
    let domain = if site.custom_domain.as_str().is_empty() {
        None
    } else {
        Some(site.custom_domain.clone())
    };
    let password = if site.password_enabled {
        Some(site.password.clone())
    } else {
        None
    };
    SiteDetails {
        name: Some(site.site_name.clone()),
        domain,
        id: None,
        ssl: None,
        url: None,
        screenshot_url: None,
        password,
        required: None,
    }
}

impl SiteDetails {
    /// The directory that holds this site's files: `sites/<name>_<id>`.
    pub fn build_site_path(&self) -> (path: String)
        requires
            self.name is Some,
            self.id is Some,
        ensures
            path@ == site_path(self.name->0@, self.id->0@),
    {
        let name = match &self.name {
            Some(name) => name.as_str(),
            None => "",
        };
        let id = match &self.id {
            Some(id) => id.as_str(),
            None => "",
        };
        let mut path = join_text("sites/", name);
        path.append("_");
        path.append(id);
        path
    }
}

/// The text that the `regex` crate gives when every match of `pattern` in
/// `text` is replaced by `replacement`; `None` where `pattern` is no regular
/// expression that the crate accepts.
pub uninterp spec fn regex_replace_all(
    pattern: Seq<char>,
    text: Seq<char>,
    replacement: Seq<char>,
) -> Option<Seq<char>>;

/// Calls `regex::Regex::new` and, on the expression it gives,
/// `Regex::replace_all`. The contract only names the result.
#[verifier::external_body]
fn replace_all_matches(pattern: &str, text: &str, replacement: &str) -> (r: Option<String>)
    ensures
        match r {
            Some(replaced) => regex_replace_all(pattern@, text@, replacement@) == Some(replaced@),
            None => regex_replace_all(pattern@, text@, replacement@) is None,
        },
{
    match regex::Regex::new(pattern) {
        Ok(expression) => Some(expression.replace_all(text, replacement).into_owned()),
        Err(_) => None,
    }
}

/// The regular expression that matches one character that is neither an
/// ASCII letter, nor an ASCII digit, nor white space.
pub open spec fn special_characters() -> Seq<char> {
    "[^a-zA-Z0-9\\s]"@
}

/// The words of the first `n` characters of `s`, joined by single dashes.
pub open spec fn dashed_prefix(s: Seq<char>, n: int) -> Seq<char>
    decreases n,
{
    if n <= 0 {
        Seq::empty()
    } else {
        let earlier = dashed_prefix(s, n - 1);
        let c = s[n - 1];
        if is_whitespace(c) {
            earlier
        } else if earlier.len() > 0 && n >= 2 && is_whitespace(s[n - 2]) {
            earlier.push('-').push(c)
        } else {
            earlier.push(c)
        }
    }
}

/// The words of `s` joined by single dashes: white space at either end is
/// dropped, and each run of white space between two words becomes one dash.
pub open spec fn dashed(s: Seq<char>) -> Seq<char> {
    dashed_prefix(s, s.len() as int)
}

/// Joins the words of `text` by single dashes.
pub fn dash_words(text: &str) -> (r: String)
    ensures
        r@ == dashed(text@),
{
    let chars = to_chars(text);
    let mut out = String::new();
    let mut started = false;
    let mut after_space = false;
    let mut i: usize = 0;
    while i < chars.len()
        invariant
            i <= chars.len(),
            chars@ == text@,
            out@ == dashed_prefix(text@, i as int),
            started == (out@.len() > 0),
            after_space == (i >= 1 && is_whitespace(text@[i - 1])),
        decreases chars.len() - i,
    {
        let c = chars[i];
        if char_is_whitespace(c) {
            after_space = true;
        } else {
            if started && after_space {
                out.push('-');
            }
            out.push(c);
            started = true;
            after_space = false;
        }
        i += 1;
    }
    out
}

/// `s` with every dash replaced by a space.
pub open spec fn undashed(s: Seq<char>) -> Seq<char> {
    s.map_values(|c: char| if c == '-' { ' ' } else { c })
}

/// Replaces every dash of `text` by a space.
pub fn undash(text: &str) -> (r: String)
    ensures
        r@ == undashed(text@),
{
    let chars = to_chars(text);
    let mut out = String::new();
    let mut i: usize = 0;
    while i < chars.len()
        invariant
            i <= chars.len(),
            chars@ == text@,
            out@ == undashed(text@).take(i as int),
        decreases chars.len() - i,
    {
        let c = chars[i];
        if c == '-' {
            out.push(' ');
        } else {
            out.push(c);
        }
        assert(out@ =~= undashed(text@).take(i + 1));
        i += 1;
    }
    assert(undashed(text@).take(chars.len() as int) =~= undashed(text@));
    out
}

/// The path that `base` becomes when `component` is pushed onto it, with `/`
/// as the separator: a component that begins with the separator replaces the
/// base, and a separator is put between the two unless the base is empty or
/// ends with one.
pub open spec fn joined_path(base: Seq<char>, component: Seq<char>) -> Seq<char> {
    if component.len() > 0 && component[0] == '/' {
        component
    } else if base.len() == 0 || base.last() == '/' {
        base + component
    } else {
        base + seq!['/'] + component
    }
}

/// Pushes `component` onto the path `base`.
pub fn join_path(base: &str, component: &str) -> (r: String)
    ensures
        r@ == joined_path(base@, component@),
{
    let b = to_chars(base);
    let c = to_chars(component);
    if c.len() > 0 && c[0] == '/' {
        component.to_owned()
    } else if b.len() == 0 || b[b.len() - 1] == '/' {
        join_text(base, component)
    } else {
        let mut out = join_text(base, "/");
        out.append(component);
        proof {
            reveal_strlit("/");
            assert("/"@ =~= seq!['/']);
        }
        out
    }
}

/// A post of a site.
#[derive(Debug)]
pub struct Post {
    pub title: String,
    pub date: String,
    pub content: String,
    pub filename: String,
    pub tags: Vec<String>,
}

/// Why a post could not be prepared.
#[derive(Debug, Clone, Copy, PartialEq, Eq, Structural)]
pub enum PostError {
    /// The pattern for special characters was not accepted.
    Pattern,
}

/// The file of the post with the file name `filename` below the directory
/// `site_directory`.
pub open spec fn post_path(site_directory: Seq<char>, filename: Seq<char>) -> Seq<char> {
    joined_path(joined_path(site_directory, "md_posts"@), filename + ".md"@)
}

/// The excerpt that a new post starts with.
pub open spec fn default_excerpt() -> Seq<char> {
    "Write cool excerpt here"@
}

/// The image that a new post starts with.
pub open spec fn default_image() -> Seq<char> {
    "https://images.unsplash.com/photo-1615147342761-9238e15d8b96?ixid=MXwxMjA3fDB8MHxwaG90by1wYWdlfHx8fGVufDB8fHw%3D&ixlib=rb-1.2.1&auto=format&fit=crop&w=1001&q=80"@
}

/// The strings `parts` joined by `separator`.
pub open spec fn joined(parts: Seq<Seq<char>>, separator: Seq<char>) -> Seq<char>
    decreases parts.len(),
{
    if parts.len() == 0 {
        Seq::empty()
    } else if parts.len() == 1 {
        parts[0]
    } else {
        joined(parts.drop_last(), separator) + separator + parts.last()
    }
}

/// Joins `parts` by `separator`.
pub fn join(parts: &Vec<String>, separator: &str) -> (r: String)
    ensures
        r@ == joined(strings_view(parts@), separator@),
{
    let ghost model = strings_view(parts@);
    let mut out = String::new();
    let mut i: usize = 0;
    proof {
        assert(model.take(0) =~= Seq::<Seq<char>>::empty());
    }
    while i < parts.len()
        invariant
            i <= parts.len(),
            model == strings_view(parts@),
            out@ == joined(model.take(i as int), separator@),
        decreases parts.len() - i,
    {
        proof {
            let next = model.take(i + 1);
            assert(next.drop_last() =~= model.take(i as int));
            assert(next.last() == parts@[i as int]@);
            if i == 0 {
                assert(next[0] == parts@[0]@);
                assert(out@ =~= Seq::<char>::empty());
            }
        }
        if i > 0 {
            out.append(separator);
        }
        out.append(parts[i].as_str());
        i += 1;
    }
    proof {
        assert(model.take(parts.len() as int) =~= model);
    }
    out
}

/// The text of a post's file: date, excerpt, image and tags, one per line,
/// then the title as a heading, then the text of the post.
pub open spec fn post_file_content(
    date: Seq<char>,
    tags: Seq<Seq<char>>,
    title: Seq<char>,
    text: Seq<char>,
) -> Seq<char> {
    "date:"@ + date + "\nexcerpt:"@ + default_excerpt() + "\nimage:"@ + default_image()
        + "\ntags:"@ + joined(tags, ","@) + "\n# "@ + title + "\n"@ + text
}

impl Post {
    /// A post with the title `title`, dated `date`, and nothing else yet.
    pub fn new(title: String, date: String) -> (r: Post)
        ensures
            r.title == title,
            r.date == date,
            r.content@.len() == 0,
            r.filename@.len() == 0,
            r.tags@.len() == 0,
    {
        Post { title, date, content: String::new(), filename: String::new(), tags: Vec::new() }
    }

    /// Sets the file name from the title: special characters become spaces,
    /// and the words that are left are joined by dashes.
    pub fn clean_filename(&mut self) -> (r: Result<(), PostError>)
        ensures
            final(self).title == old(self).title,
            final(self).date == old(self).date,
            final(self).content == old(self).content,
            final(self).tags == old(self).tags,
            match regex_replace_all(special_characters(), old(self).title@, " "@) {
                Some(cleaned) => r is Ok && final(self).filename@ == dashed(cleaned),
                None => r == Err::<(), PostError>(PostError::Pattern) && final(self).filename
                    == old(self).filename,
            },
    {
        match replace_all_matches("[^a-zA-Z0-9\\s]", self.title.as_str(), " ") {
            Some(cleaned) => {
                self.filename = dash_words(cleaned.as_str());
                Ok(())
            },
            None => Err(PostError::Pattern),
        }
    }

    /// Sets the title from the file name, with spaces for its dashes.
    pub fn build_post_name(&mut self)
        ensures
            final(self).title@ == undashed(old(self).filename@),
            final(self).date == old(self).date,
            final(self).content == old(self).content,
            final(self).filename == old(self).filename,
            final(self).tags == old(self).tags,
    {
        self.title = undash(self.filename.as_str());
    }

    /// The file that holds this post below the directory of `site`.
    pub fn build_post_path(&self, site: &SiteDetails) -> (path: String)
        requires
            site.name is Some,
            site.id is Some,
        ensures
            path@ == post_path(site_path(site.name->0@, site.id->0@), self.filename@),
    {
        let directory = join_path(site.build_site_path().as_str(), "md_posts");
        join_path(directory.as_str(), join_text(self.filename.as_str(), ".md").as_str())
    }

    /// The text to write to this post's file when `post_text` is its body.
    pub fn file_content(&self, post_text: &str) -> (r: String)
        ensures
            r@ == post_file_content(self.date@, strings_view(self.tags@), self.title@, post_text@),
    {
        let mut out = join_text("date:", self.date.as_str());
        out.append("\nexcerpt:");
        out.append("Write cool excerpt here");
        out.append("\nimage:");
        out.append(
            "https://images.unsplash.com/photo-1615147342761-9238e15d8b96?ixid=MXwxMjA3fDB8MHxwaG90by1wYWdlfHx8fGVufDB8fHw%3D&ixlib=rb-1.2.1&auto=format&fit=crop&w=1001&q=80",
        );
        out.append("\ntags:");
        out.append(join(&self.tags, ",").as_str());
        out.append("\n# ");
        out.append(self.title.as_str());
        out.append("\n");
        out.append(post_text);
        out
    }
}

/// The tags `pieces`, each with its special characters replaced by spaces;
/// `None` where the pattern for special characters was not accepted.
pub open spec fn cleaned_tags(pieces: Seq<Seq<char>>) -> Option<Seq<Seq<char>>>
    decreases pieces.len(),
{
    if pieces.len() == 0 {
        Some(Seq::empty())
    } else {
        match (
            cleaned_tags(pieces.drop_last()),
            regex_replace_all(special_characters(), pieces.last(), " "@),
        ) {
            (Some(earlier), Some(tag)) => Some(earlier.push(tag)),
            _ => None,
        }
    }
}

/// The tags that the comma-separated list `list` names.
pub open spec fn tags_of(list: Seq<char>) -> Option<Seq<Seq<char>>> {
    cleaned_tags(split_on(trimmed(list), ','))
}

impl Post {
    /// Adds the tags of the comma-separated list `new_tags` to the post's
    /// tags: white space around the list is dropped, and in each tag special
    /// characters become spaces. On an error the post is left as it was.
    pub fn clean_and_set_tags(&mut self, new_tags: &str) -> (r: Result<(), PostError>)
        ensures
            final(self).title == old(self).title,
            final(self).date == old(self).date,
            final(self).content == old(self).content,
            final(self).filename == old(self).filename,
            match tags_of(new_tags@) {
                Some(tags) => r is Ok && strings_view(final(self).tags@) == strings_view(
                    old(self).tags@,
                ) + tags,
                None => r == Err::<(), PostError>(PostError::Pattern) && final(self).tags
                    == old(self).tags,
            },
    {
        let list = trim(new_tags);
        let pieces = split(list.as_str(), ',');
        let ghost model = strings_view(pieces@);
        let mut cleaned: Vec<String> = Vec::new();
        let mut i: usize = 0;
        proof {
            assert(model.take(0) =~= Seq::<Seq<char>>::empty());
            assert(strings_view(cleaned@) =~= Seq::<Seq<char>>::empty());
        }
        while i < pieces.len()
            invariant
                i <= pieces.len(),
                model == strings_view(pieces@),
                model == split_on(trimmed(new_tags@), ','),
                *self == *old(self),
                cleaned_tags(model.take(i as int)) == Some(strings_view(cleaned@)),
            decreases pieces.len() - i,
        {
            let ghost before = strings_view(cleaned@);
            proof {
                let next = model.take(i + 1);
                assert(next.drop_last() =~= model.take(i as int));
                assert(next.last() == pieces@[i as int]@);
            }
            match replace_all_matches("[^a-zA-Z0-9\\s]", pieces[i].as_str(), " ") {
                Some(tag) => {
                    cleaned.push(tag);
                    assert(strings_view(cleaned@) =~= before.push(tag@));
                },
                None => {
                    proof {
                        assert(cleaned_tags(model.take(i + 1)) is None);
                        lemma_cleaned_tags_fail(model, i as int + 1);
                        assert(model.take(pieces.len() as int) =~= model);
                    }
                    return Err(PostError::Pattern);
                },
            }
            i += 1;
        }
        proof {
            assert(model.take(pieces.len() as int) =~= model);
        }
        let ghost old_tags = strings_view(self.tags@);
        let ghost new_tags_model = strings_view(cleaned@);
        self.tags.append(&mut cleaned);
        assert(strings_view(self.tags@) =~= old_tags + new_tags_model);
        Ok(())
    }
}

/// Once a tag could not be cleaned, the whole list cannot.
proof fn lemma_cleaned_tags_fail(pieces: Seq<Seq<char>>, n: int)
    requires
        0 <= n <= pieces.len(),
        cleaned_tags(pieces.take(n)) is None,
    ensures
        cleaned_tags(pieces) is None,
    decreases pieces.len() - n,
{
    if n < pieces.len() {
        assert(pieces.take(n + 1).drop_last() =~= pieces.take(n));
        lemma_cleaned_tags_fail(pieces, n + 1);
    } else {
        assert(pieces.take(n) =~= pieces);
    }
}

} // verus!
