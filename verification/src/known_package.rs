//! Known packages: packages the user has seen or searched for, with their tags
//! classified into releases, signatures and attestations.

use vstd::prelude::*;

use crate::text::{ends_with, has_suffix, opt_view, str_equal, string_views};

verus! {

/// The type of a tag, used to distinguish release tags from signatures and attestations.
#[derive(Debug, Clone, Copy, PartialEq, Eq, Structural)]
pub enum TagType {
    /// A regular release tag (e.g., "1.0.0", "latest")
    Release,
    /// A signature tag (ending in ".sig")
    Signature,
    /// An attestation tag (ending in ".att")
    Attestation,
}

/// The type of a tag, decided by its suffix.
pub open spec fn tag_type_of(tag: Seq<char>) -> TagType {
    if has_suffix(tag, ".sig"@) {
        TagType::Signature
    } else if has_suffix(tag, ".att"@) {
        TagType::Attestation
    } else {
        TagType::Release
    }
}

/// The name under which a tag type is stored in the database.
pub open spec fn tag_type_name(t: TagType) -> Seq<char> {
    match t {
        TagType::Release => "release"@,
        TagType::Signature => "signature"@,
        TagType::Attestation => "attestation"@,
    }
}

/// How a stored tag type name is read back: unknown names count as releases.
pub open spec fn tag_type_from_name(name: Seq<char>) -> TagType {
    if name == "signature"@ {
        TagType::Signature
    } else if name == "attestation"@ {
        TagType::Attestation
    } else {
        TagType::Release
    }
}

impl TagType {
    /// Determine the tag type from a tag string.
    pub fn from_tag(tag: &str) -> (res: Self)
        ensures
            res == tag_type_of(tag@),
    {
        if ends_with(tag, ".sig") {
            TagType::Signature
        } else if ends_with(tag, ".att") {
            TagType::Attestation
        } else {
            TagType::Release
        }
    }

    /// Convert to the database string representation.
    pub fn as_str(&self) -> (res: &'static str)
        ensures
            res@ == tag_type_name(*self),
    {
        match self {
            TagType::Release => "release",
            TagType::Signature => "signature",
            TagType::Attestation => "attestation",
        }
    }
}

/// Reads a stored tag type name back.
fn stored_tag_type(name: &str) -> (res: TagType)
    ensures
        res == tag_type_from_name(name@),
{
    if str_equal(name, "signature") {
        TagType::Signature
    } else if str_equal(name, "attestation") {
        TagType::Attestation
    } else {
        TagType::Release
    }
}

/// The tags of `tags` (pairs of tag and stored type name) whose stored type
/// reads back as `t`, in the order in which they were given.
pub open spec fn tags_of_type(tags: Seq<(String, String)>, t: TagType) -> Seq<Seq<char>>
    decreases tags.len(),
{
    if tags.len() == 0 {
        seq![]
    } else {
        let rest = tags_of_type(tags.drop_last(), t);
        if tag_type_from_name(tags.last().1@) == t {
            rest.push(tags.last().0@)
        } else {
            rest
        }
    }
}

/// `registry/repository`.
pub open spec fn package_reference(registry: Seq<char>, repository: Seq<char>) -> Seq<char> {
    registry + "/"@ + repository
}

/// What a known package holds, as mathematical values.
pub struct KnownPackageView {
    pub id: i64,
    pub registry: Seq<char>,
    pub repository: Seq<char>,
    pub description: Option<Seq<char>>,
    pub tags: Seq<Seq<char>>,
    pub signature_tags: Seq<Seq<char>>,
    pub attestation_tags: Seq<Seq<char>>,
    pub last_seen_at: Seq<char>,
    pub created_at: Seq<char>,
}

impl KnownPackageView {
    /// The reference `registry/repository` of this package.
    pub open spec fn reference(self) -> Seq<char> {
        package_reference(self.registry, self.repository)
    }

    /// The reference with the first (most recently seen) release tag, or
    /// `latest` when the package has no release tag.
    pub open spec fn reference_with_tag(self) -> Seq<char> {
        self.reference() + ":"@ + if self.tags.len() > 0 {
            self.tags[0]
        } else {
            "latest"@
        }
    }
}

/// A known package that persists in the database even after local deletion.
/// This is used to track packages the user has seen or searched for.
#[derive(Debug, Clone)]
pub struct KnownPackage {
    id: i64,
    /// Registry hostname
    pub registry: String,
    /// Repository path
    pub repository: String,
    /// Optional package description
    pub description: Option<String>,
    /// Release tags (regular version tags like "1.0.0", "latest")
    pub tags: Vec<String>,
    /// Signature tags (tags ending in ".sig")
    pub signature_tags: Vec<String>,
    /// Attestation tags (tags ending in ".att")
    pub attestation_tags: Vec<String>,
    /// Timestamp of last seen
    pub last_seen_at: String,
    /// Timestamp of creation
    pub created_at: String,
}

impl View for KnownPackage {
    type V = KnownPackageView;

    closed spec fn view(&self) -> KnownPackageView {
        KnownPackageView {
            id: self.id,
            registry: self.registry@,
            repository: self.repository@,
            description: opt_view(self.description),
            tags: string_views(self.tags@),
            signature_tags: string_views(self.signature_tags@),
            attestation_tags: string_views(self.attestation_tags@),
            last_seen_at: self.last_seen_at@,
            created_at: self.created_at@,
        }
    }
}

impl KnownPackage {
    /// Returns the full reference string for this package (e.g., "ghcr.io/user/repo").
    pub fn reference(&self) -> (res: String)
        ensures
            res@ == self@.reference(),
    {
        let mut res = self.registry.clone();
        res.append("/");
        res.append(self.repository.as_str());
        res
    }

    /// Returns the full reference string with the most recent tag.
    pub fn reference_with_tag(&self) -> (res: String)
        ensures
            res@ == self@.reference_with_tag(),
    {
        let mut res = self.reference();
        res.append(":");
        if self.tags.len() > 0 {
            res.append(self.tags[0].as_str());
        } else {
            res.append("latest");
        }
        res
    }

    /// The pattern with which a search matches registries and repositories
    /// (`LIKE`): the query, with any text before and after it.
    pub fn search_pattern(query: &str) -> (res: String)
        ensures
            res@ == "%"@ + query@ + "%"@,
    {
        let mut pattern = String::from_str("%");
        pattern.append(query);
        pattern.append("%");
        pattern
    }

    /// Builds a known package from its stored row and its tags, given as
    /// pairs of tag and stored tag type name: each tag goes to the list of
    /// its type, keeping the order in which the tags were given.
    pub fn from_package_and_tags(
        id: i64,
        registry: String,
        repository: String,
        description: Option<String>,
        last_seen_at: String,
        created_at: String,
        tags: Vec<(String, String)>,
    ) -> (res: Self)
        ensures
            res@ == (KnownPackageView {
                id,
                registry: registry@,
                repository: repository@,
                description: opt_view(description),
                tags: tags_of_type(tags@, TagType::Release),
                signature_tags: tags_of_type(tags@, TagType::Signature),
                attestation_tags: tags_of_type(tags@, TagType::Attestation),
                last_seen_at: last_seen_at@,
                created_at: created_at@,
            }),
    {
        let mut release_tags: Vec<String> = Vec::new();
        let mut signature_tags: Vec<String> = Vec::new();
        let mut attestation_tags: Vec<String> = Vec::new();
        let n = tags.len();
        let mut i: usize = 0;
        while i < n
            invariant
                n == tags@.len(),
                i <= n,
                string_views(release_tags@) == tags_of_type(tags@.take(i as int), TagType::Release),
                string_views(signature_tags@) == tags_of_type(
                    tags@.take(i as int),
                    TagType::Signature,
                ),
                string_views(attestation_tags@) == tags_of_type(
                    tags@.take(i as int),
                    TagType::Attestation,
                ),
            decreases n - i,
        {
            let ghost prefix = tags@.take(i + 1);
            assert(prefix.drop_last() =~= tags@.take(i as int));
            assert(prefix.last() == tags@[i as int]);
            let tag = tags[i].0.clone();
            let ghost r0 = release_tags@;
            let ghost s0 = signature_tags@;
            let ghost a0 = attestation_tags@;
            match stored_tag_type(tags[i].1.as_str()) {
                TagType::Signature => {
                    signature_tags.push(tag);
                    assert(string_views(signature_tags@) =~= string_views(s0).push(tag@));
                },
                TagType::Attestation => {
                    attestation_tags.push(tag);
                    assert(string_views(attestation_tags@) =~= string_views(a0).push(tag@));
                },
                TagType::Release => {
                    release_tags.push(tag);
                    assert(string_views(release_tags@) =~= string_views(r0).push(tag@));
                },
            }
            i += 1;
        }
        assert(tags@.take(n as int) =~= tags@);
        KnownPackage {
            id,
            registry,
            repository,
            description,
            tags: release_tags,
            signature_tags,
            attestation_tags,
            last_seen_at,
            created_at,
        }
    }

    /// Creates a new KnownPackage for testing purposes.
    pub fn new_for_testing(
        registry: String,
        repository: String,
        description: Option<String>,
        tags: Vec<String>,
        signature_tags: Vec<String>,
        attestation_tags: Vec<String>,
        last_seen_at: String,
        created_at: String,
    ) -> (res: Self)
        ensures
            res@ == (KnownPackageView {
                id: 0,
                registry: registry@,
                repository: repository@,
                description: opt_view(description),
                tags: string_views(tags@),
                signature_tags: string_views(signature_tags@),
                attestation_tags: string_views(attestation_tags@),
                last_seen_at: last_seen_at@,
                created_at: created_at@,
            }),
    {
        KnownPackage {
            id: 0,
            registry,
            repository,
            description,
            tags,
            signature_tags,
            attestation_tags,
            last_seen_at,
            created_at,
        }
    }
}

/// The tags of `tags` whose suffix classifies them as `t`, in order.
pub open spec fn tags_classified_as(tags: Seq<Seq<char>>, t: TagType) -> Seq<Seq<char>>
    decreases tags.len(),
{
    if tags.len() == 0 {
        seq![]
    } else {
        let rest = tags_classified_as(tags.drop_last(), t);
        if tag_type_of(tags.last()) == t {
            rest.push(tags.last())
        } else {
            rest
        }
    }
}

/// A tag type is read back as itself from the name it is stored under.
pub proof fn law_tag_type_name_round_trip(t: TagType)
    ensures
        tag_type_from_name(tag_type_name(t)) == t,
{
    reveal_strlit("release");
    reveal_strlit("signature");
    reveal_strlit("attestation");
    assert("release"@.len() == 7);
    assert("signature"@.len() == 9);
    assert("attestation"@.len() == 11);
}

/// Tags stored together with the name of the type that their suffix gives
/// them are listed, when the package is read back, exactly under that type.
pub proof fn law_stored_tags_land_in_their_list(tags: Seq<(String, String)>, t: TagType)
    requires
        forall|i: int|
            0 <= i < tags.len() ==> #[trigger] tags[i].1@ == tag_type_name(tag_type_of(tags[i].0@)),
    ensures
        tags_of_type(tags, t) == tags_classified_as(tags.map_values(|p: (String, String)| p.0@), t),
    decreases tags.len(),
{
    let names = tags.map_values(|p: (String, String)| p.0@);
    if tags.len() > 0 {
        let rest = tags.drop_last();
        assert forall|i: int| 0 <= i < rest.len() implies #[trigger] rest[i].1@ == tag_type_name(
            tag_type_of(rest[i].0@),
        ) by {
            assert(rest[i] == tags[i]);
        }
        law_stored_tags_land_in_their_list(rest, t);
        assert(names.drop_last() =~= rest.map_values(|p: (String, String)| p.0@));
        assert(tags[tags.len() - 1].1@ == tag_type_name(tag_type_of(tags[tags.len() - 1].0@)));
        law_tag_type_name_round_trip(tag_type_of(tags.last().0@));
    }
}

/// Every tag goes to exactly one of the three lists.
pub proof fn law_tags_partitioned(tags: Seq<(String, String)>)
    ensures
        tags_of_type(tags, TagType::Release).len() + tags_of_type(tags, TagType::Signature).len()
            + tags_of_type(tags, TagType::Attestation).len() == tags.len(),
    decreases tags.len(),
{
    if tags.len() > 0 {
        law_tags_partitioned(tags.drop_last());
    }
}

/// The reference with tag of a known package is `registry/repository:tag`
/// with its first release tag whenever it has one, whatever the other tags
/// are, and `registry/repository:latest` when it has none.
pub proof fn law_reference_with_tag(v: KnownPackageView)
    ensures
        v.tags.len() > 0 ==> v.reference_with_tag() == v.registry + "/"@ + v.repository + ":"@
            + v.tags[0],
        v.tags.len() == 0 ==> v.reference_with_tag() == v.registry + "/"@ + v.repository
            + ":latest"@,
        v.reference() == v.registry + "/"@ + v.repository,
{
    reveal_strlit(":");
    reveal_strlit("latest");
    reveal_strlit(":latest");
    assert(":"@ + "latest"@ =~= ":latest"@);
}

/// A tag is a signature exactly when it is some text followed by `.sig`; it
/// is an attestation exactly when it is some text followed by `.att` and not
/// a signature; every other tag is a release.
pub proof fn law_tag_classification(tag: Seq<char>)
    ensures
        tag_type_of(tag) == TagType::Signature <==> exists|p: Seq<char>| tag == p + ".sig"@,
        tag_type_of(tag) == TagType::Attestation <==> (!exists|p: Seq<char>| tag == p + ".sig"@)
            && exists|p: Seq<char>| tag == p + ".att"@,
{
    lemma_suffix_as_concat(tag, ".sig"@);
    lemma_suffix_as_concat(tag, ".att"@);
}

/// `has_suffix` holds exactly when the text is some text followed by the suffix.
proof fn lemma_suffix_as_concat(s: Seq<char>, suffix: Seq<char>)
    ensures
        has_suffix(s, suffix) <==> exists|p: Seq<char>| s == p + suffix,
{
    if has_suffix(s, suffix) {
        let p = s.subrange(0, s.len() - suffix.len());
        assert(s =~= p + suffix);
    }
    if exists|p: Seq<char>| s == p + suffix {
        let p = choose|p: Seq<char>| s == p + suffix;
        assert((p + suffix).subrange(p.len() as int, (p + suffix).len() as int) =~= suffix);
    }
}

} // verus!
