//! The metadata of a package submission, built step by step.
use vstd::prelude::*;

use crate::text::str_eq;

verus! {

/// The texts of a sequence of strings.
pub open spec fn strings(v: Seq<String>) -> Seq<Seq<char>> {
    v.map_values(|s: String| s@)
}

/// The texts of per-community category lists.
pub open spec fn category_lists(v: Seq<(String, Vec<String>)>) -> Seq<(Seq<char>, Seq<Seq<char>>)> {
    v.map_values(|e: (String, Vec<String>)| (e.0@, strings(e.1@)))
}

/// Whether no community appears twice in per-community category lists.
pub open spec fn distinct_communities(c: Seq<(Seq<char>, Seq<Seq<char>>)>) -> bool {
    forall|i: int, j: int| 0 <= i < j < c.len() ==> c[i].0 != c[j].0
}

/// The lists after adding `added` to the list of `community`: appended to
/// its list if it has one, else as a new list at the end.
pub open spec fn merge_categories(
    c: Seq<(Seq<char>, Seq<Seq<char>>)>,
    community: Seq<char>,
    added: Seq<Seq<char>>,
) -> Seq<(Seq<char>, Seq<Seq<char>>)> {
    if exists|i: int| 0 <= i < c.len() && c[i].0 == community {
        let i = choose|i: int| 0 <= i < c.len() && c[i].0 == community;
        c.update(i, (community, c[i].1 + added))
    } else {
        c.push((community, added))
    }
}

/// Metadata for a package submission.
///
/// Create one with [`PackageMetadata::new`], then refine it with the
/// builder methods. Community categories are kept per community, in the
/// order in which the communities were first given.
#[derive(Debug)]
pub struct PackageMetadata {
    author: String,
    global_categories: Vec<String>,
    categories: Vec<(String, Vec<String>)>,
    communities: Vec<String>,
    has_nsfw_content: bool,
    upload_uuid: Option<u128>,
}

impl PackageMetadata {
    /// The author's name.
    pub closed spec fn author_spec(&self) -> Seq<char> {
        self.author@
    }

    /// The site-wide categories.
    pub closed spec fn global_categories_spec(&self) -> Seq<Seq<char>> {
        strings(self.global_categories@)
    }

    /// The category lists of each community.
    pub closed spec fn categories_spec(&self) -> Seq<(Seq<char>, Seq<Seq<char>>)> {
        category_lists(self.categories@)
    }

    /// The communities to publish to.
    pub closed spec fn communities_spec(&self) -> Seq<Seq<char>> {
        strings(self.communities@)
    }

    /// Whether the package holds NSFW content.
    pub closed spec fn nsfw_spec(&self) -> bool {
        self.has_nsfw_content
    }

    /// The upload that the submission publishes, once set.
    pub closed spec fn upload_uuid_spec(&self) -> Option<u128> {
        self.upload_uuid
    }

    /// No community has two category lists.
    pub open spec fn wf(&self) -> bool {
        distinct_communities(self.categories_spec())
    }

    /// Metadata for a package by `author` (the team's name) published to
    /// `communities`, referred to by their slugs.
    pub fn new(author: String, communities: Vec<String>) -> (r: Self)
        ensures
            r.wf(),
            r.author_spec() == author@,
            r.communities_spec() == strings(communities@),
            r.global_categories_spec() == Seq::<Seq<char>>::empty(),
            r.categories_spec() == Seq::<(Seq<char>, Seq<Seq<char>>)>::empty(),
            !r.nsfw_spec(),
            r.upload_uuid_spec() is None,
    {
        let r = PackageMetadata {
            author,
            global_categories: Vec::new(),
            categories: Vec::new(),
            communities,
            has_nsfw_content: false,
            upload_uuid: None,
        };
        proof {
            assert(strings(r.global_categories@) =~= Seq::<Seq<char>>::empty());
            assert(category_lists(r.categories@) =~= Seq::<(Seq<char>, Seq<Seq<char>>)>::empty());
        }
        r
    }

    /// Adds site-wide categories, referred to by their slugs.
    pub fn with_global_categories(self, categories: Vec<String>) -> (r: Self)
        requires
            self.wf(),
        ensures
            r.wf(),
            r.global_categories_spec() == self.global_categories_spec() + strings(categories@),
            r.categories_spec() == self.categories_spec(),
            r.communities_spec() == self.communities_spec(),
            r.author_spec() == self.author_spec(),
            r.nsfw_spec() == self.nsfw_spec(),
            r.upload_uuid_spec() == self.upload_uuid_spec(),
    {
        let mut s = self;
        let mut categories = categories;
        let ghost before = s.global_categories@;
        let ghost added = categories@;
        s.global_categories.append(&mut categories);
        proof {
            assert(strings(s.global_categories@) =~= strings(before) + strings(added));
        }
        s
    }

    /// Adds a community to publish the package to.
    pub fn in_community(self, community: String) -> (r: Self)
        requires
            self.wf(),
        ensures
            r.wf(),
            r.communities_spec() == self.communities_spec().push(community@),
            r.global_categories_spec() == self.global_categories_spec(),
            r.categories_spec() == self.categories_spec(),
            r.author_spec() == self.author_spec(),
            r.nsfw_spec() == self.nsfw_spec(),
            r.upload_uuid_spec() == self.upload_uuid_spec(),
    {
        let mut s = self;
        let ghost before = s.communities@;
        s.communities.push(community);
        proof {
            assert(strings(s.communities@) =~= strings(before).push(community@));
        }
        s
    }

    /// Adds communities to publish the package to.
    pub fn in_communities(self, communities: Vec<String>) -> (r: Self)
        requires
            self.wf(),
        ensures
            r.wf(),
            r.communities_spec() == self.communities_spec() + strings(communities@),
            r.global_categories_spec() == self.global_categories_spec(),
            r.categories_spec() == self.categories_spec(),
            r.author_spec() == self.author_spec(),
            r.nsfw_spec() == self.nsfw_spec(),
            r.upload_uuid_spec() == self.upload_uuid_spec(),
    {
        let mut s = self;
        let mut communities = communities;
        let ghost before = s.communities@;
        let ghost added = communities@;
        s.communities.append(&mut communities);
        proof {
            assert(strings(s.communities@) =~= strings(before) + strings(added));
        }
        s
    }

    /// Sets whether the package holds NSFW content.
    pub fn has_nsfw_content(self, value: bool) -> (r: Self)
        requires
            self.wf(),
        ensures
            r.wf(),
            r.nsfw_spec() == value,
            r.communities_spec() == self.communities_spec(),
            r.global_categories_spec() == self.global_categories_spec(),
            r.categories_spec() == self.categories_spec(),
            r.author_spec() == self.author_spec(),
            r.upload_uuid_spec() == self.upload_uuid_spec(),
    {
        let mut s = self;
        s.has_nsfw_content = value;
        s
    }

    /// Sets the upload that the submission publishes.
    pub fn with_upload_uuid(self, uuid: u128) -> (r: Self)
        requires
            self.wf(),
        ensures
            r.wf(),
            r.upload_uuid_spec() == Some(uuid),
            r.nsfw_spec() == self.nsfw_spec(),
            r.communities_spec() == self.communities_spec(),
            r.global_categories_spec() == self.global_categories_spec(),
            r.categories_spec() == self.categories_spec(),
            r.author_spec() == self.author_spec(),
    {
        let mut s = self;
        s.upload_uuid = Some(uuid);
        s
    }

    /// Adds categories of one community, referred to by their slugs: they
    /// extend that community's list, which is created if it has none yet.
    pub fn with_categories(self, community: String, categories: Vec<String>) -> (r: Self)
        requires
            self.wf(),
        ensures
            r.wf(),
            r.categories_spec() == merge_categories(
                self.categories_spec(),
                community@,
                strings(categories@),
            ),
            r.global_categories_spec() == self.global_categories_spec(),
            r.communities_spec() == self.communities_spec(),
            r.author_spec() == self.author_spec(),
            r.nsfw_spec() == self.nsfw_spec(),
            r.upload_uuid_spec() == self.upload_uuid_spec(),
    {
        let mut s = self;
        let mut extra = categories;
        let ghost c = category_lists(s.categories@);
        let ghost kept = (s.author@, s.global_categories@, s.communities@, s.has_nsfw_content, s.upload_uuid);
        let ghost added = strings(categories@);
        let mut i: usize = 0;
        while i < s.categories.len()
            invariant
                c == category_lists(s.categories@),
                kept == (s.author@, s.global_categories@, s.communities@, s.has_nsfw_content, s.upload_uuid),
                kept == (self.author@, self.global_categories@, self.communities@, self.has_nsfw_content, self.upload_uuid),
                c == category_lists(self.categories@),
                added == strings(categories@),
                extra@ == categories@,
                distinct_communities(c),
                0 <= i <= s.categories@.len(),
                forall|j: int| 0 <= j < i ==> c[j].0 != community@,
            decreases s.categories@.len() - i,
        {
            if str_eq(s.categories[i].0.as_str(), community.as_str()) {
                let ghost old_entries = s.categories@;
                let mut entry = s.categories.remove(i);
                let ghost old_list = entry.1@;
                entry.1.append(&mut extra);
                s.categories.insert(i, entry);
                proof {
                    assert(c[i as int].0 == community@);
                    assert(exists|k: int| 0 <= k < c.len() && c[k].0 == community@);
                    let k = choose|k: int| 0 <= k < c.len() && c[k].0 == community@;
                    assert(k == i);
                    assert(strings(entry.1@) =~= strings(old_list) + added);
                    assert(s.categories@ =~= old_entries.update(i as int, entry));
                    assert(category_lists(s.categories@) =~= c.update(
                        i as int,
                        (community@, c[i as int].1 + added),
                    ));
                }
                return s;
            }
            i = i + 1;
        }
        let ghost old_entries = s.categories@;
        s.categories.push((community, extra));
        proof {
            assert(category_lists(s.categories@) =~= c.push((community@, added)));
        }
        s
    }

    /// The author's name.
    pub fn author(&self) -> (r: &str)
        ensures
            r@ == self.author_spec(),
    {
        self.author.as_str()
    }

    /// The site-wide categories.
    pub fn global_categories(&self) -> (r: &Vec<String>)
        ensures
            strings(r@) == self.global_categories_spec(),
    {
        &self.global_categories
    }

    /// The category lists of each community.
    pub fn categories(&self) -> (r: &Vec<(String, Vec<String>)>)
        ensures
            category_lists(r@) == self.categories_spec(),
    {
        &self.categories
    }

    /// The communities to publish to.
    pub fn communities(&self) -> (r: &Vec<String>)
        ensures
            strings(r@) == self.communities_spec(),
    {
        &self.communities
    }

    /// Whether the package holds NSFW content.
    pub fn nsfw(&self) -> (r: bool)
        ensures
            r == self.nsfw_spec(),
    {
        self.has_nsfw_content
    }

    /// The upload that the submission publishes, once set.
    pub fn upload_uuid(&self) -> (r: Option<u128>)
        ensures
            r == self.upload_uuid_spec(),
    {
        self.upload_uuid
    }
}

} // verus!
