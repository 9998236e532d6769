//! The listing page's contents: the catalog of the working directory, the
//! base URL of the server, and the QR image of that URL.

use crate::address::{resolve, spec_base_url};
use crate::catalog::{
    entry_views, file_records, record_views, spec_records, DirectoryScan, EntryView, FileRecord,
};
use crate::config::MyConfig;
use crate::error::ShareError;
use crate::qr::{generate_qr_n64, spec_qr_image, spec_text_result};
use vstd::prelude::*;
use vstd::string::*;

verus! {

/// What the listing page shows. The QR image is absent where the base URL
/// could not be encoded: that does not fail the listing.
#[derive(Debug, PartialEq, Eq)]
pub struct Listing {
    pub file_list: Vec<FileRecord>,
    pub host_url: String,
    pub host_url_qr: Option<String>,
}

/// An image that may be absent, as a sequence of characters.
pub open spec fn spec_image_text(image: Option<String>) -> Option<Seq<char>> {
    match image {
        Some(text) => Some(text@),
        None => None,
    }
}

/// The image of an encoding, with a failure as an absent image.
pub open spec fn spec_image_or_none(encoded: Result<Seq<char>, ShareError>) -> Option<Seq<char>> {
    match encoded {
        Ok(text) => Some(text),
        Err(_) => None,
    }
}

impl Listing {
    /// Whether this is the listing of `entries` under the base URL `base`
    /// with `encoded` as the outcome of encoding the base URL.
    pub open spec fn shows(
        self,
        base: Seq<char>,
        entries: Seq<EntryView>,
        encoded: Result<Seq<char>, ShareError>,
    ) -> bool {
        &&& self.host_url@ == base
        &&& record_views(self.file_list@) == spec_records(base, entries)
        &&& spec_image_text(self.host_url_qr) == spec_image_or_none(encoded)
    }
}

/// Puts the listing together from the base URL, the outcome of the scan and
/// the outcome of encoding the base URL. An unreadable directory fails the
/// listing with `DirectoryUnreadable`; a failed encoding only leaves the
/// image out.
pub fn listing_for(host_url: String, scan: &DirectoryScan, encoded: Result<String, ShareError>) -> (listing:
    Result<Listing, ShareError>)
    ensures
        match *scan {
            DirectoryScan::Unreadable => listing == Err::<Listing, ShareError>(
                ShareError::DirectoryUnreadable,
            ),
            DirectoryScan::Entries(entries) => listing is Ok && listing->Ok_0.shows(
                host_url@,
                entry_views(entries@),
                spec_text_result(encoded),
            ),
        },
{
    match scan {
        DirectoryScan::Unreadable => Err(ShareError::DirectoryUnreadable),
        DirectoryScan::Entries(entries) => {
            let file_list = file_records(host_url.as_str(), entries);
            let host_url_qr = match encoded {
                Ok(image) => Some(image),
                Err(_) => None,
            };
            Ok(Listing { file_list, host_url, host_url_qr })
        },
    }
}

/// The listing of the working directory as the scan found it. The base URL
/// is resolved once and used for every record. An unreadable directory fails
/// the listing with `DirectoryUnreadable`, and then nothing is looked up or
/// encoded; otherwise the listing shows the regular files under a base URL
/// of the configured protocol and port, with the QR image of that URL.
pub fn list_files(config: &MyConfig, scan: &DirectoryScan) -> (listing: Result<Listing, ShareError>)
    ensures
        match *scan {
            DirectoryScan::Unreadable => listing == Err::<Listing, ShareError>(
                ShareError::DirectoryUnreadable,
            ),
            DirectoryScan::Entries(entries) => {
                &&& listing is Ok
                &&& config@.is_valid()
                &&& exists|ip: Seq<char>|
                    listing->Ok_0.host_url@ == #[trigger] spec_base_url(
                        config@.protocol,
                        ip,
                        config@.port,
                    )
                &&& listing->Ok_0.shows(
                    listing->Ok_0.host_url@,
                    entry_views(entries@),
                    spec_qr_image(listing->Ok_0.host_url@),
                )
            },
        },
{
    match scan {
        DirectoryScan::Unreadable => Err(ShareError::DirectoryUnreadable),
        DirectoryScan::Entries(_) => {
            let host_url = resolve(config);
            let encoded = generate_qr_n64(host_url.clone());
            listing_for(host_url, scan, encoded)
        },
    }
}

} // verus!
