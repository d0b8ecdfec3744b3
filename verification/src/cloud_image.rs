//! An image that a site offers for download.

use crate::checksums::{CheckSums, CheckSumsView};
use crate::digest::verification_of;
pub use crate::digest::verify_file;
use crate::image_history::{image_in_rows, is_image_in_db, rows_view, HistoryRecord};
use crate::text::concat3;
use crate::timestamp::Timestamp;
use crate::website::{Url, UrlView};
use vstd::prelude::*;

verus! {

/// An image of a site: where it is, what it is called, the digest that the
/// site publishes for it and when it was published.
#[derive(PartialEq, Eq, Debug)]
pub struct CloudImage {
    pub url: Url,
    pub name: String,
    pub checksum: CheckSums,
    pub date: Timestamp,
}

/// The mathematical value of a [`CloudImage`].
pub struct CloudImageView {
    pub url: UrlView,
    pub name: Seq<char>,
    pub checksum: CheckSumsView,
    pub date: Timestamp,
}

impl View for CloudImage {
    type V = CloudImageView;

    open spec fn view(&self) -> CloudImageView {
        CloudImageView {
            url: self.url@,
            name: self.name@,
            checksum: self.checksum@,
            date: self.date,
        }
    }
}

/// The values of a list of images.
pub open spec fn images_view(v: Seq<CloudImage>) -> Seq<CloudImageView> {
    Seq::new(v.len(), |i: int| v[i]@)
}

/// How the verification of a downloaded file ended.
#[derive(Clone, Copy, Debug, PartialEq, Eq, Structural)]
pub enum Verification {
    /// The file has the published digest.
    Verified,
    /// The file has another digest than the published one.
    Mismatch,
    /// No digest is published for the image: nothing was compared.
    NotVerified,
    /// The file could not be read.
    Unreadable,
}

/// How the verification of a file ends: `content` is what was read of it,
/// or `None` where it could not be read.
pub open spec fn verification_result(checksum: CheckSumsView, content: Option<Seq<u8>>) ->
    Verification {
    match content {
        None => Verification::Unreadable,
        Some(bytes) => match verification_of(checksum, bytes) {
            Some(true) => Verification::Verified,
            Some(false) => Verification::Mismatch,
            None => Verification::NotVerified,
        },
    }
}

impl Verification {
    /// The verification let the file pass: its digest is the published one,
    /// or there was none to compare with.
    pub open spec fn passes(self) -> bool {
        self == Verification::Verified || self == Verification::NotVerified
    }

    /// The verification earns the image its entry in the history: the file
    /// has the published digest.
    pub open spec fn earns_record(self) -> bool {
        self == Verification::Verified
    }

    /// How a verification that read the whole file ended, from what the
    /// comparison gave.
    pub fn of(compared: Option<bool>) -> (r: Verification)
        ensures
            r == match compared {
                Some(true) => Verification::Verified,
                Some(false) => Verification::Mismatch,
                None => Verification::NotVerified,
            },
    {
        match compared {
            Some(true) => Verification::Verified,
            Some(false) => Verification::Mismatch,
            None => Verification::NotVerified,
        }
    }

    /// Whether the file passed.
    pub fn passed(self) -> (r: bool)
        ensures
            r == self.passes(),
    {
        match self {
            Verification::Verified => true,
            Verification::NotVerified => true,
            _ => false,
        }
    }

    /// Whether the image is to be written to the history.
    pub fn recorded(self) -> (r: bool)
        ensures
            r == self.earns_record(),
    {
        match self {
            Verification::Verified => true,
            _ => false,
        }
    }
}

/// The line that describes an image: its address, and its digest where one
/// is published.
pub open spec fn image_description(image: CloudImageView) -> Seq<char> {
    match image.checksum {
        CheckSumsView::Missing => "\t-> "@ + image.url.url + seq!['\n'],
        CheckSumsView::Sha256(h) => "\t-> "@ + image.url.url + " with checksum "@ + h + seq!['\n'],
        CheckSumsView::Sha512(h) => "\t-> "@ + image.url.url + " with checksum "@ + h + seq!['\n'],
    }
}

impl CloudImage {
    /// The image of the given address, digest, name and publication date.
    pub fn new(url: Url, checksum: CheckSums, name: String, date: Timestamp) -> (r: Self)
        ensures
            r@ == (CloudImageView { url: url@, name: name@, checksum: checksum@, date }),
    {
        CloudImage { url, name, checksum, date }
    }

    /// A copy of the image.
    pub fn duplicate(&self) -> (r: CloudImage)
        ensures
            r@ == self@,
    {
        CloudImage {
            url: self.url.duplicate(),
            name: self.name.clone(),
            checksum: self.checksum.duplicate(),
            date: self.date,
        }
    }

    /// How the verification of the downloaded file ends: `content` is what
    /// was read of it, or `None` where it could not be read.
    pub fn check(&self, content: &Option<Vec<u8>>) -> (r: Verification)
        ensures
            r == verification_result(
                self@.checksum,
                match *content {
                    Some(bytes) => Some(bytes@),
                    None => None,
                },
            ),
    {
        match content {
            None => Verification::Unreadable,
            Some(bytes) => Verification::of(verify_file(bytes.as_slice(), &self.checksum)),
        }
    }

    /// Whether the downloaded file passes: it has the published digest, or
    /// no digest is published. A file that could not be read does not
    /// pass.
    pub fn verify(&self, content: &Option<Vec<u8>>) -> (r: bool)
        ensures
            r == verification_result(
                self@.checksum,
                match *content {
                    Some(bytes) => Some(bytes@),
                    None => None,
                },
            ).passes(),
    {
        self.check(content).passed()
    }

    /// Whether the history knows the image, given the rows that the history
    /// returned for it.
    pub fn is_in_db(&self, rows: &Vec<Option<HistoryRecord>>) -> (r: bool)
        requires
            self.date.wf(),
        ensures
            r == image_in_rows(Some(self@), rows_view(rows@)),
    {
        is_image_in_db(Some(self), rows)
    }

    /// The line that describes the image.
    pub fn to_string(&self) -> (r: String)
        ensures
            r@ == image_description(self@),
    {
        proof {
            reveal_strlit("\n");
            assert("\n"@ =~= seq!['\n']);
        }
        match &self.checksum {
            CheckSums::Missing => concat3("\t-> ", self.url.url.as_str(), "\n"),
            CheckSums::Sha256(h) => {
                let head = concat3("\t-> ", self.url.url.as_str(), " with checksum ");
                concat3(head.as_str(), h.as_str(), "\n")
            },
            CheckSums::Sha512(h) => {
                let head = concat3("\t-> ", self.url.url.as_str(), " with checksum ");
                concat3(head.as_str(), h.as_str(), "\n")
            },
        }
    }
}

} // verus!
