//! Metadata of stored OCI images: their references, how a stored row becomes
//! an entry, and which rows the existence check and the deletion select.

use vstd::prelude::*;

use oci_client::manifest::{OciDescriptor, OciImageManifest, IMAGE_MANIFEST_MEDIA_TYPE};

use crate::entities::image;
use crate::text::{opt_str_view, opt_view};

verus! {

/// `oci_client::manifest::OciImageManifest`, carried opaquely in an entry.
#[verifier::external_type_specification]
#[verifier::external_body]
pub struct ExOciImageManifest(oci_client::manifest::OciImageManifest);

/// `serde_json::Error`, the error of a failed manifest parse, carried opaquely.
#[verifier::external_type_specification]
#[verifier::external_body]
pub struct ExJsonError(serde_json::Error);

/// `Clone` of an OCI image manifest: nothing is stated of the copy.
pub assume_specification[ <oci_client::manifest::OciImageManifest as std::clone::Clone>::clone ](
    manifest: &OciImageManifest,
) -> OciImageManifest;

/// Result of an insert operation.
#[derive(Debug, Clone, Copy, PartialEq, Eq, Structural)]
pub enum InsertResult {
    /// The entry was inserted successfully.
    Inserted,
    /// The entry already existed in the database.
    AlreadyExists,
}

/// Why a stored image row could not be turned into an entry.
#[derive(Debug)]
pub enum ImageEntryError {
    /// The stored manifest is not a valid OCI image manifest in JSON.
    InvalidManifest(serde_json::Error),
}

/// Whether `serde_json` reads `text` as an OCI image manifest.
pub uninterp spec fn manifest_json_accepted(text: Seq<char>) -> bool;

/// The OCI image manifest that `serde_json` reads from `text`.
pub uninterp spec fn manifest_of(text: Seq<char>) -> OciImageManifest;

/// Calls `serde_json::from_str` for an `OciImageManifest`. The contract
/// states exactly when the call succeeds, through `manifest_json_accepted`,
/// and names the manifest a success yields, `manifest_of` of the text; what
/// that manifest holds is not described.
#[verifier::external_body]
fn parse_manifest_json(text: &str) -> (res: Result<OciImageManifest, serde_json::Error>)
    ensures
        res is Ok <==> manifest_json_accepted(text@),
        res matches Ok(m) ==> m == manifest_of(text@),
{
    serde_json::from_str::<OciImageManifest>(text)
}

/// Builds a minimal OCI image manifest with a single WASM layer, through the
/// constructors of `oci_client`. Nothing is stated of the manifest.
#[verifier::external_body]
fn sample_wasm_manifest() -> OciImageManifest {
    let config_type = "application/vnd.oci.image.config.v1+json".to_string();
    let config = OciDescriptor { media_type: config_type, digest: "sha256:abc123".to_string(), size: 100, ..Default::default() };
    let layer = OciDescriptor { media_type: "application/wasm".to_string(), digest: "sha256:def456".to_string(), size: 1024, ..Default::default() };
    let media_type = Some(IMAGE_MANIFEST_MEDIA_TYPE.to_string());
    OciImageManifest { media_type, config, layers: vec![layer], ..Default::default() }
}

/// The reference of an image: `registry/repository`, then `:tag` when it has
/// a tag, else `@digest` when it has a digest.
pub open spec fn image_reference(
    registry: Seq<char>,
    repository: Seq<char>,
    tag: Option<Seq<char>>,
    digest: Option<Seq<char>>,
) -> Seq<char> {
    registry + "/"@ + repository + match tag {
        Some(t) => ":"@ + t,
        None => match digest {
            Some(d) => "@"@ + d,
            None => Seq::<char>::empty(),
        },
    }
}

/// What an image entry holds, as mathematical values; the manifest is
/// carried as it is.
pub struct ImageEntryView {
    pub id: i64,
    pub ref_registry: Seq<char>,
    pub ref_repository: Seq<char>,
    pub ref_mirror_registry: Option<Seq<char>>,
    pub ref_tag: Option<Seq<char>>,
    pub ref_digest: Option<Seq<char>>,
    pub manifest: OciImageManifest,
    pub size_on_disk: u64,
}

/// The entry that a stored image row gives with the manifest `manifest`:
/// the row's fields, and its stored size read as unsigned.
pub open spec fn model_entry_view(model: image::Model, manifest: OciImageManifest) -> ImageEntryView {
    ImageEntryView {
        id: model.id,
        ref_registry: model.ref_registry@,
        ref_repository: model.ref_repository@,
        ref_mirror_registry: opt_view(model.ref_mirror_registry),
        ref_tag: opt_view(model.ref_tag),
        ref_digest: opt_view(model.ref_digest),
        manifest,
        size_on_disk: model.size_on_disk as u64,
    }
}

impl ImageEntryView {
    /// The reference of this image.
    pub open spec fn reference(self) -> Seq<char> {
        image_reference(self.ref_registry, self.ref_repository, self.ref_tag, self.ref_digest)
    }
}

/// Metadata for a stored OCI image.
#[derive(Debug, Clone)]
pub struct ImageEntry {
    id: i64,
    /// Registry hostname
    pub ref_registry: String,
    /// Repository path
    pub ref_repository: String,
    /// Optional mirror registry hostname
    pub ref_mirror_registry: Option<String>,
    /// Optional tag
    pub ref_tag: Option<String>,
    /// Optional digest
    pub ref_digest: Option<String>,
    /// OCI image manifest
    pub manifest: OciImageManifest,
    /// Size of the image on disk in bytes
    pub size_on_disk: u64,
}

impl View for ImageEntry {
    type V = ImageEntryView;

    closed spec fn view(&self) -> ImageEntryView {
        ImageEntryView {
            id: self.id,
            ref_registry: self.ref_registry@,
            ref_repository: self.ref_repository@,
            ref_mirror_registry: opt_view(self.ref_mirror_registry),
            ref_tag: opt_view(self.ref_tag),
            ref_digest: opt_view(self.ref_digest),
            manifest: self.manifest,
            size_on_disk: self.size_on_disk,
        }
    }
}

impl ImageEntry {
    /// Returns the full reference string for this image (e.g., "ghcr.io/user/repo:tag").
    pub fn reference(&self) -> (res: String)
        ensures
            res@ == self@.reference(),
    {
        let mut reference = self.ref_registry.clone();
        reference.append("/");
        reference.append(self.ref_repository.as_str());
        match &self.ref_tag {
            Some(tag) => {
                reference.append(":");
                reference.append(tag.as_str());
            },
            None => match &self.ref_digest {
                Some(digest) => {
                    reference.append("@");
                    reference.append(digest.as_str());
                },
                None => {},
            },
        }
        reference
    }

    /// Convert a stored image row to an `ImageEntry`: the manifest is read
    /// from its JSON text, and the stored size is read as unsigned.
    pub fn from_model(model: image::Model) -> (res: Result<Self, ImageEntryError>)
        ensures
            res is Ok <==> manifest_json_accepted(model.manifest@),
            res matches Ok(entry) ==> entry@ == model_entry_view(
                model,
                manifest_of(model.manifest@),
            ),
    {
        let parsed = parse_manifest_json(model.manifest.as_str());
        ImageEntry::from_model_and_manifest(model, parsed)
    }

    /// Builds an entry from a stored image row and the outcome of reading
    /// its manifest: the row's fields with the read manifest, or the error
    /// of the read.
    pub fn from_model_and_manifest(
        model: image::Model,
        parsed: Result<OciImageManifest, serde_json::Error>,
    ) -> (res: Result<Self, ImageEntryError>)
        ensures
            res is Ok <==> parsed is Ok,
            res matches Ok(entry) ==> parsed matches Ok(m) && entry@ == model_entry_view(model, m),
            res matches Err(ImageEntryError::InvalidManifest(e)) ==> parsed == Err::<
                OciImageManifest,
                serde_json::Error,
            >(e),
    {
        match parsed {
            Ok(manifest) => Ok(ImageEntry {
                id: model.id,
                ref_registry: model.ref_registry,
                ref_repository: model.ref_repository,
                ref_mirror_registry: model.ref_mirror_registry,
                ref_tag: model.ref_tag,
                ref_digest: model.ref_digest,
                manifest,
                size_on_disk: model.size_on_disk as u64,
            }),
            Err(e) => Err(ImageEntryError::InvalidManifest(e)),
        }
    }

    /// Creates a new ImageEntry for testing purposes, with a minimal
    /// manifest holding a single WASM layer.
    pub fn new_for_testing(
        ref_registry: String,
        ref_repository: String,
        ref_tag: Option<String>,
        ref_digest: Option<String>,
        size_on_disk: u64,
    ) -> (res: Self)
        ensures
            res@.id == 0,
            res@.ref_registry == ref_registry@,
            res@.ref_repository == ref_repository@,
            res@.ref_mirror_registry is None,
            res@.ref_tag == opt_view(ref_tag),
            res@.ref_digest == opt_view(ref_digest),
            res@.size_on_disk == size_on_disk,
    {
        ImageEntry {
            id: 0,
            ref_registry,
            ref_repository,
            ref_mirror_registry: None,
            ref_tag,
            ref_digest,
            manifest: sample_wasm_manifest(),
            size_on_disk,
        }
    }
}

/// A condition on an optional column, as mathematical values.
pub enum ColumnCondition {
    /// The column holds exactly this text.
    Equals(Seq<char>),
    /// The column is empty.
    IsNull,
    /// Any value, or none.
    Any,
}

/// Whether `value` meets the condition `c`.
pub open spec fn condition_holds(c: ColumnCondition, value: Option<Seq<char>>) -> bool {
    match c {
        ColumnCondition::Equals(s) => value == Some(s),
        ColumnCondition::IsNull => value is None,
        ColumnCondition::Any => true,
    }
}

/// The columns of an image row that a filter reads.
pub struct ImageKey {
    pub registry: Seq<char>,
    pub repository: Seq<char>,
    pub tag: Option<Seq<char>>,
    pub digest: Option<Seq<char>>,
}

/// The key of a stored image row.
pub open spec fn model_key(m: image::Model) -> ImageKey {
    ImageKey {
        registry: m.ref_registry@,
        repository: m.ref_repository@,
        tag: opt_view(m.ref_tag),
        digest: opt_view(m.ref_digest),
    }
}

/// A filter over image rows, as mathematical values.
pub struct ImageFilterView {
    pub registry: Seq<char>,
    pub repository: Seq<char>,
    pub tag: ColumnCondition,
    pub digest: ColumnCondition,
}

impl ImageFilterView {
    /// Whether the filter selects a row with key `k`.
    pub open spec fn selects(self, k: ImageKey) -> bool {
        &&& k.registry == self.registry
        &&& k.repository == self.repository
        &&& condition_holds(self.tag, k.tag)
        &&& condition_holds(self.digest, k.digest)
    }
}

/// An absent value asks for an empty column.
pub open spec fn exact_condition(v: Option<Seq<char>>) -> ColumnCondition {
    match v {
        Some(s) => ColumnCondition::Equals(s),
        None => ColumnCondition::IsNull,
    }
}

/// An absent value leaves the column unconstrained.
pub open spec fn loose_condition(v: Option<Seq<char>>) -> ColumnCondition {
    match v {
        Some(s) => ColumnCondition::Equals(s),
        None => ColumnCondition::Any,
    }
}

/// The filter of the existence check: every column must be exactly as given.
pub open spec fn exists_filter_view(
    registry: Seq<char>,
    repository: Seq<char>,
    tag: Option<Seq<char>>,
    digest: Option<Seq<char>>,
) -> ImageFilterView {
    ImageFilterView {
        registry,
        repository,
        tag: exact_condition(tag),
        digest: exact_condition(digest),
    }
}

/// The filter of the deletion: a tag or digest that is not given selects any.
pub open spec fn delete_filter_view(
    registry: Seq<char>,
    repository: Seq<char>,
    tag: Option<Seq<char>>,
    digest: Option<Seq<char>>,
) -> ImageFilterView {
    ImageFilterView {
        registry,
        repository,
        tag: loose_condition(tag),
        digest: loose_condition(digest),
    }
}

/// A condition on an optional text column.
#[derive(Debug, Clone, PartialEq, Eq)]
pub enum ColumnMatch {
    /// The column holds exactly this text.
    Equals(String),
    /// The column is empty.
    IsNull,
    /// Any value, or none.
    Any,
}

impl View for ColumnMatch {
    type V = ColumnCondition;

    open spec fn view(&self) -> ColumnCondition {
        match self {
            ColumnMatch::Equals(s) => ColumnCondition::Equals(s@),
            ColumnMatch::IsNull => ColumnCondition::IsNull,
            ColumnMatch::Any => ColumnCondition::Any,
        }
    }
}

impl ColumnMatch {
    /// Whether `value` meets this condition.
    pub fn holds(&self, value: &Option<String>) -> (res: bool)
        ensures
            res == condition_holds(self@, opt_view(*value)),
    {
        match self {
            ColumnMatch::Equals(s) => match value {
                Some(v) => *v == *s,
                None => false,
            },
            ColumnMatch::IsNull => value.is_none(),
            ColumnMatch::Any => true,
        }
    }
}

/// Builds the condition of one optional column: a given value must be
/// matched exactly; an absent one asks for an empty column when `exact`,
/// and is unconstrained otherwise.
fn column_match(v: Option<&str>, exact: bool) -> (res: ColumnMatch)
    ensures
        res@ == if exact {
            exact_condition(opt_str_view(v))
        } else {
            loose_condition(opt_str_view(v))
        },
{
    match v {
        Some(s) => ColumnMatch::Equals(s.to_owned()),
        None => if exact {
            ColumnMatch::IsNull
        } else {
            ColumnMatch::Any
        },
    }
}

/// A filter over the rows of the `image` table.
#[derive(Debug, Clone, PartialEq, Eq)]
pub struct ImageFilter {
    /// The registry the rows must have.
    pub registry: String,
    /// The repository the rows must have.
    pub repository: String,
    /// The condition on the tag column.
    pub tag: ColumnMatch,
    /// The condition on the digest column.
    pub digest: ColumnMatch,
}

impl View for ImageFilter {
    type V = ImageFilterView;

    open spec fn view(&self) -> ImageFilterView {
        ImageFilterView {
            registry: self.registry@,
            repository: self.repository@,
            tag: self.tag@,
            digest: self.digest@,
        }
    }
}

impl ImageFilter {
    /// Whether the filter selects the row `model`.
    pub fn matches(&self, model: &image::Model) -> (res: bool)
        ensures
            res == self@.selects(model_key(*model)),
    {
        self.registry == model.ref_registry && self.repository == model.ref_repository
            && self.tag.holds(&model.ref_tag) && self.digest.holds(&model.ref_digest)
    }
}

impl ImageEntry {
    /// The rows that the existence check counts: those with exactly this
    /// registry, repository, tag and digest, where an absent tag or digest
    /// asks for an empty column.
    pub fn exists_filter(
        ref_registry: &str,
        ref_repository: &str,
        ref_tag: Option<&str>,
        ref_digest: Option<&str>,
    ) -> (res: ImageFilter)
        ensures
            res@ == exists_filter_view(
                ref_registry@,
                ref_repository@,
                opt_str_view(ref_tag),
                opt_str_view(ref_digest),
            ),
    {
        ImageFilter {
            registry: ref_registry.to_owned(),
            repository: ref_repository.to_owned(),
            tag: column_match(ref_tag, true),
            digest: column_match(ref_digest, true),
        }
    }

    /// The rows that deletion by reference removes: those with this registry
    /// and repository, and this tag and digest where they are given.
    pub fn delete_filter(
        registry: &str,
        repository: &str,
        tag: Option<&str>,
        digest: Option<&str>,
    ) -> (res: ImageFilter)
        ensures
            res@ == delete_filter_view(
                registry@,
                repository@,
                opt_str_view(tag),
                opt_str_view(digest),
            ),
    {
        ImageFilter {
            registry: registry.to_owned(),
            repository: repository.to_owned(),
            tag: column_match(tag, false),
            digest: column_match(digest, false),
        }
    }
}

/// A row written by an insert with some registry, repository, tag and
/// digest is found by the existence check with the same values, so a second
/// insert of the same values reports that the entry already exists.
pub proof fn law_inserted_row_exists(
    registry: Seq<char>,
    repository: Seq<char>,
    tag: Option<Seq<char>>,
    digest: Option<Seq<char>>,
)
    ensures
        exists_filter_view(registry, repository, tag, digest).selects(
            ImageKey { registry, repository, tag, digest },
        ),
{
}

/// The existence check tells entries apart: a row is found only with its
/// own tag and digest, so an entry with another tag can still be inserted.
pub proof fn law_exists_is_exact(
    registry: Seq<char>,
    repository: Seq<char>,
    tag: Option<Seq<char>>,
    digest: Option<Seq<char>>,
    k: ImageKey,
)
    ensures
        exists_filter_view(registry, repository, tag, digest).selects(k) <==> k == (ImageKey {
            registry,
            repository,
            tag,
            digest,
        }),
{
}

/// Whatever the existence check finds, deletion with the same values removes.
pub proof fn law_existing_rows_are_deleted(
    registry: Seq<char>,
    repository: Seq<char>,
    tag: Option<Seq<char>>,
    digest: Option<Seq<char>>,
    k: ImageKey,
)
    ensures
        exists_filter_view(registry, repository, tag, digest).selects(k) ==> delete_filter_view(
            registry,
            repository,
            tag,
            digest,
        ).selects(k),
{
}

/// Deletion by registry and repository alone removes every row of that
/// repository, whatever its tag and digest.
pub proof fn law_delete_by_repository_removes_all_of_it(
    registry: Seq<char>,
    repository: Seq<char>,
    k: ImageKey,
)
    ensures
        delete_filter_view(registry, repository, None, None).selects(k) <==> (k.registry
            == registry && k.repository == repository),
{
}

/// Deletion by reference constrains exactly what is given: a row is removed
/// when it has the registry and repository, and the tag if one is given, and
/// the digest if one is given; a tag or digest that is not given does not
/// matter, whatever the other one is.
pub proof fn law_delete_constrains_only_what_is_given(
    registry: Seq<char>,
    repository: Seq<char>,
    tag: Option<Seq<char>>,
    digest: Option<Seq<char>>,
    k: ImageKey,
)
    ensures
        delete_filter_view(registry, repository, tag, digest).selects(k) <==> {
            &&& k.registry == registry
            &&& k.repository == repository
            &&& (tag is None || k.tag == tag)
            &&& (digest is None || k.digest == digest)
        },
{
}

/// The existence check selects a row exactly when all four columns equal
/// the given values, an absent tag or digest asking for an empty column.
pub proof fn law_exists_selects_equal_rows(
    registry: Seq<char>,
    repository: Seq<char>,
    tag: Option<Seq<char>>,
    digest: Option<Seq<char>>,
    k: ImageKey,
)
    ensures
        exists_filter_view(registry, repository, tag, digest).selects(k) <==> {
            &&& k.registry == registry
            &&& k.repository == repository
            &&& k.tag == tag
            &&& k.digest == digest
        },
{
}

/// An image's reference is `registry/repository:tag` when it has a tag,
/// whatever its digest; `registry/repository@digest` when it has only a
/// digest; and `registry/repository` when it has neither.
pub proof fn law_image_reference(
    registry: Seq<char>,
    repository: Seq<char>,
    tag: Option<Seq<char>>,
    digest: Option<Seq<char>>,
)
    ensures
        tag matches Some(t) ==> image_reference(registry, repository, tag, digest) == registry
            + "/"@ + repository + ":"@ + t,
        tag is None ==> (digest matches Some(d) ==> image_reference(
            registry,
            repository,
            tag,
            digest,
        ) == registry + "/"@ + repository + "@"@ + d),
        tag is None && digest is None ==> image_reference(registry, repository, tag, digest)
            == registry + "/"@ + repository,
{
    assert(registry + "/"@ + repository + Seq::<char>::empty() =~= registry + "/"@ + repository);
    if let Some(t) = tag {
        assert(registry + "/"@ + repository + (":"@ + t) =~= registry + "/"@ + repository + ":"@ + t);
    } else if let Some(d) = digest {
        assert(registry + "/"@ + repository + ("@"@ + d) =~= registry + "/"@ + repository + "@"@ + d);
    }
}

} // verus!
