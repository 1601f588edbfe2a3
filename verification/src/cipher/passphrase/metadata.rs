//! The passphrase backend's metadata under its version tag.
//!
//! New encryptions always write the newest version; every version that was
//! ever written stays readable.

use super::v1::{MetadataV1, MetadataV1View};
use crate::cipher::record::{field_value, MetadataRecord};
use crate::error::{EnvioError, MetadataError};
use vstd::prelude::*;

verus! {

/// The metadata of one encryption, tagged by the version of its schema.
#[derive(Debug)]
pub enum VersionedMetadata {
    /// Version "1": the salt and the nonce prefix.
    V1(MetadataV1),
}

/// What a [`VersionedMetadata`] holds.
pub enum VersionedMetadataView {
    V1(MetadataV1View),
}

impl View for VersionedMetadata {
    type V = VersionedMetadataView;

    open spec fn view(&self) -> VersionedMetadataView {
        match self {
            VersionedMetadata::V1(metadata) => VersionedMetadataView::V1(metadata@),
        }
    }
}

impl Clone for VersionedMetadata {
    fn clone(&self) -> (copy: Self)
        ensures
            copy@ == self@,
    {
        match self {
            VersionedMetadata::V1(metadata) => VersionedMetadata::V1(metadata.clone()),
        }
    }
}

impl Default for VersionedMetadata {
    /// Version 1 with an empty salt and an empty nonce.
    fn default() -> (metadata: Self)
        ensures
            metadata@ == VersionedMetadataView::V1(
                MetadataV1View { salt: Seq::empty(), nonce: Seq::empty() },
            ),
    {
        VersionedMetadata::V1(MetadataV1::default())
    }
}

impl From<MetadataV1> for VersionedMetadata {
    fn from(meta: MetadataV1) -> (metadata: Self) {
        VersionedMetadata::V1(meta)
    }
}

impl vstd::std_specs::convert::FromSpecImpl<MetadataV1> for VersionedMetadata {
    open spec fn obeys_from_spec() -> bool {
        true
    }

    open spec fn from_spec(meta: MetadataV1) -> Self {
        VersionedMetadata::V1(meta)
    }
}

/// The record in which metadata is persisted: the version tag first, then the
/// fields of that version.
pub open spec fn record_of(metadata: VersionedMetadataView) -> Seq<(Seq<char>, Seq<char>)> {
    match metadata {
        VersionedMetadataView::V1(v1) => seq![
            ("version"@, "1"@),
            ("salt"@, v1.salt),
            ("nonce"@, v1.nonce),
        ],
    }
}

/// The metadata that a record stands for. A record without a version tag, or
/// without a field that its version needs, is malformed; a version tag other
/// than "1" is unsupported.
pub open spec fn read_record(fields: Seq<(Seq<char>, Seq<char>)>) -> Result<
    VersionedMetadataView,
    EnvioError,
> {
    match field_value(fields, "version"@) {
        None => Err(EnvioError::Metadata(MetadataError::Malformed)),
        Some(version) => if version == "1"@ {
            match (field_value(fields, "salt"@), field_value(fields, "nonce"@)) {
                (Some(salt), Some(nonce)) => Ok(
                    VersionedMetadataView::V1(MetadataV1View { salt, nonce }),
                ),
                _ => Err(EnvioError::Metadata(MetadataError::Malformed)),
            }
        } else {
            Err(EnvioError::Metadata(MetadataError::UnsupportedVersion))
        },
    }
}

/// The view of an `Ok`, the error of an `Err`.
pub open spec fn metadata_outcome(r: Result<VersionedMetadata, EnvioError>) -> Result<
    VersionedMetadataView,
    EnvioError,
> {
    match r {
        Ok(metadata) => Ok(metadata@),
        Err(e) => Err(e),
    }
}

impl VersionedMetadata {
    /// Writes the metadata into a record.
    pub fn to_record(&self) -> (record: MetadataRecord)
        ensures
            record@ == record_of(self@),
    {
        let mut record = MetadataRecord::new();
        match self {
            VersionedMetadata::V1(v1) => {
                record.push("version", "1");
                record.push("salt", v1.salt.as_str());
                record.push("nonce", v1.nonce.as_str());
            },
        }
        record
    }

    /// Reads the metadata that a record stands for.
    pub fn from_record(record: &MetadataRecord) -> (r: Result<VersionedMetadata, EnvioError>)
        ensures
            metadata_outcome(r) == read_record(record@),
    {
        match record.get("version") {
            None => Err(EnvioError::Metadata(MetadataError::Malformed)),
            Some(version) => {
                if version == "1".to_owned() {
                    match (record.get("salt"), record.get("nonce")) {
                        (Some(salt), Some(nonce)) => Ok(
                            VersionedMetadata::V1(MetadataV1 { salt, nonce }),
                        ),
                        _ => Err(EnvioError::Metadata(MetadataError::Malformed)),
                    }
                } else {
                    Err(EnvioError::Metadata(MetadataError::UnsupportedVersion))
                }
            },
        }
    }
}

/// Reading inverts writing: the record of any metadata reads back as the same
/// metadata.
pub proof fn lemma_read_inverts_record(metadata: VersionedMetadataView)
    ensures
        read_record(record_of(metadata)) == Ok::<VersionedMetadataView, EnvioError>(metadata),
{
    reveal_strlit("version");
    reveal_strlit("salt");
    reveal_strlit("nonce");
    let fields = record_of(metadata);
    assert("version"@.len() != "nonce"@.len());
    assert("version"@.len() != "salt"@.len());
    assert("salt"@.len() != "nonce"@.len());
    assert(fields[0].0 == "version"@);
    assert(field_value(fields, "version"@) == Some("1"@));
    let rest = fields.drop_first();
    assert(rest[0].0 == "salt"@);
    assert(field_value(rest, "salt"@) == Some(rest[0].1));
    assert(field_value(fields, "salt"@) == field_value(rest, "salt"@));
    let last = rest.drop_first();
    assert(last[0].0 == "nonce"@);
    assert(field_value(last, "nonce"@) == Some(last[0].1));
    assert(field_value(rest, "nonce"@) == field_value(last, "nonce"@));
    assert(field_value(fields, "nonce"@) == field_value(rest, "nonce"@));
}

/// A record whose version tag is not "1" is refused as unsupported, whatever
/// else it holds.
pub proof fn lemma_unknown_version_refused(fields: Seq<(Seq<char>, Seq<char>)>)
    requires
        field_value(fields, "version"@) matches Some(version) && version != "1"@,
    ensures
        read_record(fields) == Err::<VersionedMetadataView, EnvioError>(
            EnvioError::Metadata(MetadataError::UnsupportedVersion),
        ),
{
}

} // verus!
