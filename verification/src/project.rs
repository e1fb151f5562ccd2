//! Projects: the coarse scope of everything that is ingested, their slugs and their API
//! keys, and the project that a request or a page belongs to.

use crate::codec::{hex_encode, hex_lower, sha256, sha256_digest};
use crate::similarity::{split_words, word_views, words};
use crate::text::{
    chars_of, extend_chars, lowercase, str_eq, str_of, string_of, to_lowercase,
};
use vstd::prelude::*;
use vstd::utf8::encode_utf8;

verus! {

/// The number of random bytes in an API key.
pub const API_KEY_BYTES: usize = 24;

/// A project.
#[derive(Debug, Clone)]
pub struct Project {
    pub id: i64,
    pub name: String,
    pub slug: String,
    pub api_key: String,
    pub created_at: String,
}

/// A legacy API key: a key that belongs to no project. The key itself is not kept, only
/// its hash.
#[derive(Debug, Clone)]
pub struct ApiKey {
    pub id: i64,
    pub name: String,
    pub created_at: String,
    pub last_used_at: Option<String>,
}

/// The project that an ingest request belongs to, as its API key tells.
#[derive(Debug, Clone, Copy, PartialEq, Eq, Structural)]
pub struct ProjectContext {
    pub project_id: Option<i64>,
}

/// The project that a page of the dashboard shows, and the projects to choose from.
#[derive(Debug, Clone)]
pub struct WebProjectContext {
    pub current_project: Option<Project>,
    pub projects: Vec<Project>,
    pub projects_enabled: bool,
}

/// The words `parts`, with `sep` between each two of them.
pub open spec fn joined(parts: Seq<Seq<char>>, sep: char) -> Seq<char>
    decreases parts.len(),
{
    if parts.len() == 0 {
        Seq::empty()
    } else if parts.len() == 1 {
        parts[0]
    } else {
        joined(parts.drop_last(), sep).push(sep) + parts.last()
    }
}

/// The slug of a name in lower case: its runs of alphanumeric characters, with a hyphen
/// between each two of them.
pub open spec fn slug_of(lowered: Seq<char>) -> Seq<char> {
    joined(words(lowered), '-')
}

/// The API key of a project that is made of the given random bytes.
pub open spec fn api_key_of(bytes: Seq<u8>) -> Seq<char> {
    "proj_"@ + hex_lower(bytes)
}

/// The hash under which a legacy API key is stored: its SHA-256 digest in lower-case
/// hexadecimal text.
pub open spec fn key_hash(raw_key: Seq<char>) -> Seq<char> {
    hex_lower(sha256_digest(encode_utf8(raw_key)))
}

/// Random bytes for an API key.
///
/// Trusted: calls `thread_rng` and `Rng::gen` of the `rand` crate for an array of 24 bytes.
/// The bytes are random: the contract states their number and nothing else. The generator
/// is seeded by the operating system and gives up only where that has no randomness to
/// give.
#[verifier::external_body]
pub(crate) fn random_key_bytes() -> (bytes: Vec<u8>)
    ensures
        bytes.len() == API_KEY_BYTES,
{
    let bytes: [u8; 24] = rand::Rng::gen(&mut rand::thread_rng());
    bytes.to_vec()
}

/// The slug of a name whose lower-case form is `lowered`.
pub fn slugify_lowered(lowered: &str) -> (slug: String)
    ensures
        slug@ == slug_of(lowered@),
{
    let parts = split_words(lowered);
    let mut out: Vec<char> = Vec::new();
    let mut i: usize = 0;
    while i < parts.len()
        invariant
            i <= parts.len(),
            out@ == joined(word_views(parts@).take(i as int), '-'),
        decreases parts.len() - i,
    {
        proof {
            let next = word_views(parts@).take(i + 1);
            assert(next.drop_last() =~= word_views(parts@).take(i as int));
        }
        if i > 0 {
            out.push('-');
        }
        extend_chars(&mut out, &parts[i]);
        i += 1;
    }
    proof {
        assert(word_views(parts@).take(parts.len() as int) =~= word_views(parts@));
    }
    string_of(&out)
}

/// The slug of a project name.
pub fn slugify(name: &str) -> (slug: String)
    ensures
        slug@ == slug_of(lowercase(name@)),
{
    let lowered = to_lowercase(name);
    slugify_lowered(lowered.as_str())
}

/// The API key that is made of the given random bytes: `proj_` and the bytes in
/// hexadecimal text.
pub fn format_api_key(bytes: &[u8]) -> (key: String)
    ensures
        key@ == api_key_of(bytes@),
{
    let mut out = chars_of("proj_");
    let digits = hex_encode(bytes);
    let tail = chars_of(digits.as_str());
    extend_chars(&mut out, &tail);
    string_of(&out)
}

/// A new API key for a project: `proj_` and 48 hexadecimal digits, from 24 random bytes.
pub fn generate_api_key() -> (key: String)
    ensures
        exists|bytes: Seq<u8>| bytes.len() == API_KEY_BYTES && key@ == api_key_of(bytes),
{
    let bytes = random_key_bytes();
    format_api_key(bytes.as_slice())
}

/// The hash under which a legacy API key is stored.
pub fn hash_key(raw_key: &str) -> (hash: String)
    ensures
        hash@ == key_hash(raw_key@),
{
    let digest = sha256(raw_key.as_bytes());
    hex_encode(digest.as_slice())
}

/// Whether `copy` holds what `project` holds.
pub open spec fn same_project(copy: Project, project: Project) -> bool {
    &&& copy.id == project.id
    &&& copy.name@ == project.name@
    &&& copy.slug@ == project.slug@
    &&& copy.api_key@ == project.api_key@
    &&& copy.created_at@ == project.created_at@
}

/// The index of the first project with the slug `slug`.
pub open spec fn find_slug(projects: Seq<Project>, slug: Seq<char>) -> Option<int>
    decreases projects.len(),
{
    if projects.len() == 0 {
        None
    } else if projects[0].slug@ == slug {
        Some(0)
    } else {
        match find_slug(projects.drop_first(), slug) {
            Some(i) => Some(i + 1),
            None => None,
        }
    }
}

/// The index of the project that a page shows: the one whose slug the cookie names, or the
/// first one where there is no cookie.
pub open spec fn current_index(projects: Seq<Project>, slug: Option<Seq<char>>) -> Option<int> {
    match slug {
        Some(s) => find_slug(projects, s),
        None => if projects.len() > 0 {
            Some(0)
        } else {
            None
        },
    }
}

/// The index of the first project with the slug `slug`.
pub fn find_project(projects: &Vec<Project>, slug: &str) -> (r: Option<usize>)
    ensures
        match r {
            Some(i) => find_slug(projects@, slug@) == Some(i as int) && i < projects.len(),
            None => find_slug(projects@, slug@).is_none(),
        },
{
    let mut i: usize = 0;
    proof {
        assert(projects@.skip(0) =~= projects@);
    }
    while i < projects.len()
        invariant
            i <= projects.len(),
            find_slug(projects@, slug@) == match find_slug(projects@.skip(i as int), slug@) {
                Some(k) => Some(k + i),
                None => None,
            },
        decreases projects.len() - i,
    {
        proof {
            assert(projects@.skip(i as int).drop_first() =~= projects@.skip(i + 1));
        }
        if str_eq(projects[i].slug.as_str(), slug) {
            return Some(i);
        }
        i += 1;
    }
    None
}

impl Project {
    /// A copy of the project.
    pub fn duplicate(&self) -> (copy: Project)
        ensures
            same_project(copy, *self),
    {
        Project {
            id: self.id,
            name: self.name.clone(),
            slug: self.slug.clone(),
            api_key: self.api_key.clone(),
            created_at: self.created_at.clone(),
        }
    }
}

impl WebProjectContext {
    /// The id of the current project.
    pub open spec fn current_id(self) -> Option<i64> {
        match self.current_project {
            Some(p) => Some(p.id),
            None => None,
        }
    }

    /// The id of the current project.
    pub fn project_id(&self) -> (id: Option<i64>)
        ensures
            id == self.current_id(),
    {
        match &self.current_project {
            Some(p) => Some(p.id),
            None => None,
        }
    }

    /// Whether the project with the id `id` is the current one.
    pub fn is_current_project(&self, id: &i64) -> (b: bool)
        ensures
            b == (self.current_id() == Some(*id)),
    {
        match &self.current_project {
            Some(p) => p.id == *id,
            None => false,
        }
    }

    /// Whether the page offers a choice of projects: it does where projects are enabled
    /// and there is more than one.
    pub fn show_selector(&self) -> (b: bool)
        ensures
            b == (self.projects_enabled && self.projects.len() > 1),
    {
        self.projects_enabled && self.projects.len() > 1
    }

    /// The context of a page where projects are disabled.
    pub fn disabled() -> (context: WebProjectContext)
        ensures
            context.current_project.is_none(),
            context.projects.len() == 0,
            !context.projects_enabled,
    {
        WebProjectContext { current_project: None, projects: Vec::new(), projects_enabled: false }
    }

    /// The context of a page where projects are enabled: `projects` are all projects, and
    /// `slug` is what the cookie of the request names.
    pub fn select(projects: Vec<Project>, slug: Option<&str>) -> (context: WebProjectContext)
        ensures
            context.projects_enabled,
            context.projects == projects,
            match current_index(projects@, str_of(slug)) {
                Some(i) => 0 <= i < projects.len() && context.current_project.is_some()
                    && same_project(context.current_project.unwrap(), projects[i]),
                None => context.current_project.is_none(),
            },
    {
        let current = match slug {
            Some(s) => match find_project(&projects, s) {
                Some(i) => Some(projects[i].duplicate()),
                None => None,
            },
            None => {
                if projects.len() > 0 {
                    Some(projects[0].duplicate())
                } else {
                    None
                }
            },
        };
        WebProjectContext { current_project: current, projects, projects_enabled: true }
    }
}

} // verus!
