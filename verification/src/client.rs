//! A client in the process of the node itself.

use vstd::prelude::*;

use crate::metadata::{catalogued_prefixed, decode_metadata, decoded_metadata};
use crate::metadata::{Error as MetadataError, Metadata};
use std::marker::PhantomData;
use std::sync::Arc;

verus! {

/// A client of the node that it runs in.
pub struct InProcess<Block, Client, Backend> {
    inner: Arc<Client>,
    _marker: PhantomData<(Block, Backend)>,
}

impl<Block, Client, Backend> InProcess<Block, Client, Backend> {
    /// The client of the node.
    pub closed spec fn node(&self) -> Arc<Client> {
        self.inner
    }

    /// A client over that of the node.
    pub fn new(inner: Arc<Client>) -> (client: Self)
        ensures
            client.node() == inner,
    {
        InProcess { inner, _marker: PhantomData }
    }

    /// The client of the node.
    pub fn inner(&self) -> (inner: &Arc<Client>)
        ensures
            *inner == self.node(),
    {
        &self.inner
    }
}

/// The block that is asked for, or the last finalized one where none is. The node is asked
/// for the last finalized block only in that case.
pub fn block_or_finalized<Id, F: FnOnce() -> Id>(block_id: Option<Id>, finalized: F) -> (block: Id)
    requires
        block_id is None ==> finalized.requires(()),
    ensures
        match block_id {
            Some(id) => block == id,
            None => finalized.ensures((), block),
        },
{
    match block_id {
        Some(id) => id,
        None => finalized(),
    }
}

/// Why encoded metadata gives no catalogue.
#[derive(Debug)]
pub enum EncodedMetadataError {
    /// The text of what is wrong with the encoding.
    Codec(String),
    Metadata(MetadataError),
}

impl EncodedMetadataError {
    /// The message of the error.
    pub open spec fn text(self) -> Seq<char> {
        match self {
            EncodedMetadataError::Codec(text) => text@,
            EncodedMetadataError::Metadata(e) => e.text(),
        }
    }

    /// The message of the error.
    pub fn message(self) -> (message: String)
        ensures
            message@ == self.text(),
            match self {
                EncodedMetadataError::Codec(text) => message@ == text@,
                EncodedMetadataError::Metadata(e) => message@ == e.text(),
            },
    {
        match self {
            EncodedMetadataError::Codec(text) => text,
            EncodedMetadataError::Metadata(e) => e.message(),
        }
    }
}

/// Reads the metadata that a runtime hands out, which is SCALE encoded.
pub fn metadata_from_encoded(encoded: &[u8]) -> (result: Result<Metadata, EncodedMetadataError>)
    ensures
        match decoded_metadata(encoded@) {
            Err(text) => result matches Err(EncodedMetadataError::Codec(string)) && string@
                == text,
            Ok(prefixed) => match catalogued_prefixed(prefixed) {
                Err(e) => result == Err::<Metadata, _>(EncodedMetadataError::Metadata(e)),
                Ok(view) => result matches Ok(metadata) && metadata@ == view,
            },
        },
{
    match decode_metadata(encoded) {
        Ok(metadata) => match Metadata::try_from(metadata) {
            Ok(metadata) => Ok(metadata),
            Err(e) => Err(EncodedMetadataError::Metadata(e)),
        },
        Err(text) => Err(EncodedMetadataError::Codec(text)),
    }
}

} // verus!
