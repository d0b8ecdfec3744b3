//! What the history of downloads stores, and what its answers mean.
//!
//! The history is a table of rows `(name, checksum, date)` in which no row
//! occurs twice. This module states what is asked of the table and reads
//! its answers; the table itself is kept by the caller.

use crate::cloud_image::{verification_result, CloudImage, CloudImageView, Verification};
use crate::digest::verification_of;
use crate::text::same_text;
use vstd::prelude::*;

verus! {

/// Creates the table of the history where it does not exist.
pub const CREATE_TABLE: &'static str =
    "CREATE TABLE IF NOT EXISTS images (name TEXT NOT NULL, checksum TEXT NOT NULL, date TEXT NOT NULL)";

/// Creates the index that keeps every row of the history unique.
pub const CREATE_INDEX: &'static str =
    "CREATE UNIQUE INDEX IF NOT EXISTS index_ncd ON images(name, checksum, date)";

/// Asks for the rows of one image; its parameters are the fields of a
/// [`HistoryRecord`], in order.
pub const SELECT_IMAGE: &'static str =
    "SELECT name, checksum, date FROM images WHERE name=?1 AND checksum=?2 AND date=?3";

/// Adds the row of one image; its parameters are the fields of a
/// [`HistoryRecord`], in order.
pub const INSERT_IMAGE: &'static str =
    "INSERT INTO images (name, checksum, date) VALUES (?1, ?2, ?3)";

/// One row of the history.
#[derive(PartialEq, Eq, Debug)]
pub struct HistoryRecord {
    pub name: String,
    pub checksum: String,
    pub date: String,
}

/// The mathematical value of a [`HistoryRecord`].
pub struct HistoryRecordView {
    pub name: Seq<char>,
    pub checksum: Seq<char>,
    pub date: Seq<char>,
}

impl View for HistoryRecord {
    type V = HistoryRecordView;

    open spec fn view(&self) -> HistoryRecordView {
        HistoryRecordView { name: self.name@, checksum: self.checksum@, date: self.date@ }
    }
}

/// The row that stands for `image`: its name, its digest as written out,
/// and its publication date to the second.
pub open spec fn record_of(image: CloudImageView) -> HistoryRecordView {
    HistoryRecordView {
        name: image.name,
        checksum: image.checksum.rendered(),
        date: image.date.second_text(),
    }
}

/// The values of the rows that the history returned; `None` stands for a
/// row that could not be read.
pub open spec fn rows_view(rows: Seq<Option<HistoryRecord>>) -> Seq<Option<HistoryRecordView>> {
    Seq::new(
        rows.len(),
        |i: int|
            match rows[i] {
                Some(row) => Some(row@),
                None => None,
            },
    )
}

/// Whether `rows` show that the history knows `record`: the first row that
/// could be read decides, and it does when it is the record.
pub open spec fn record_in_rows(
    record: HistoryRecordView,
    rows: Seq<Option<HistoryRecordView>>,
) -> bool
    decreases rows.len(),
{
    if rows.len() == 0 {
        false
    } else {
        match rows[0] {
            Some(row) => row == record,
            None => record_in_rows(record, rows.drop_first()),
        }
    }
}

/// Whether `rows`, returned by the history for `image`, show that the
/// history knows it. Without image the answer is no.
pub open spec fn image_in_rows(
    image: Option<CloudImageView>,
    rows: Seq<Option<HistoryRecordView>>,
) -> bool {
    match image {
        Some(image) => record_in_rows(record_of(image), rows),
        None => false,
    }
}

/// The history once an image went through verification: the image's row is
/// added when, and only when, its file has the published digest.
pub open spec fn history_after(
    history: Set<HistoryRecordView>,
    image: CloudImageView,
    verification: Verification,
) -> Set<HistoryRecordView> {
    if verification.earns_record() {
        history.insert(record_of(image))
    } else {
        history
    }
}

impl HistoryRecord {
    /// The row that stands for `image`.
    pub fn new(image: &CloudImage) -> (r: HistoryRecord)
        requires
            image.date.wf(),
        ensures
            r@ == record_of(image@),
    {
        HistoryRecord {
            name: image.name.clone(),
            checksum: image.checksum.to_string(),
            date: image.date.format_second(),
        }
    }

    /// Whether two rows hold the same fields.
    pub fn same_as(&self, other: &HistoryRecord) -> (r: bool)
        ensures
            r == (self@ == other@),
    {
        same_text(self.name.as_str(), other.name.as_str()) && same_text(
            self.checksum.as_str(),
            other.checksum.as_str(),
        ) && same_text(self.date.as_str(), other.date.as_str())
    }
}

/// Whether `rows`, which the history returned when asked for `cloud_image`
/// with [`SELECT_IMAGE`], show that the history knows the image. A row that
/// could not be read is passed over; no row, as after a query that failed,
/// means that the image is not known.
pub fn is_image_in_db(cloud_image: Option<&CloudImage>, rows: &Vec<Option<HistoryRecord>>) -> (r:
    bool)
    requires
        cloud_image matches Some(image) ==> image.date.wf(),
    ensures
        r == image_in_rows(
            match cloud_image {
                Some(image) => Some(image@),
                None => None,
            },
            rows_view(rows@),
        ),
{
    let image = match cloud_image {
        Some(image) => image,
        None => {
            return false;
        },
    };
    let record = HistoryRecord::new(image);
    let mut i: usize = 0;
    assert(rows_view(rows@).skip(0) == rows_view(rows@));
    while i < rows.len()
        invariant
            i <= rows.len(),
            cloud_image == Some(image),
            record@ == record_of(image@),
            record_in_rows(record@, rows_view(rows@)) == record_in_rows(
                record@,
                rows_view(rows@).skip(i as int),
            ),
        decreases rows.len() - i,
    {
        let ghost rest = rows_view(rows@).skip(i as int);
        assert(rest.drop_first() == rows_view(rows@).skip(i + 1));
        match &rows[i] {
            Some(row) => {
                assert(rest[0] == Some(row@));
                return row.same_as(&record);
            },
            None => {
                assert(rest[0] is None);
            },
        }
        i += 1;
    }
    false
}

/// What is written to the history for an image that went through
/// verification: its row when its file has the published digest, else
/// nothing.
pub fn save_image_in_db(cloud_image: &CloudImage, verification: Verification) -> (r: Option<
    HistoryRecord,
>)
    requires
        cloud_image.date.wf(),
    ensures
        r is Some <==> verification.earns_record(),
        r matches Some(row) ==> row@ == record_of(cloud_image@),
{
    if verification.recorded() {
        Some(HistoryRecord::new(cloud_image))
    } else {
        None
    }
}

/// The history once the images `images` went through verification one
/// after the other, `contents` being what was read of their files.
pub open spec fn history_after_all(
    history: Set<HistoryRecordView>,
    images: Seq<CloudImageView>,
    contents: Seq<Option<Seq<u8>>>,
) -> Set<HistoryRecordView>
    decreases images.len(),
{
    if images.len() == 0 {
        history
    } else {
        history_after(
            history_after_all(history, images.drop_last(), contents.drop_last()),
            images.last(),
            verification_result(images.last().checksum, contents.last()),
        )
    }
}

/// A row of the history stands for a file that had the published digest:
/// every row that a run adds is the row of an image whose file was read
/// and whose content has the digest published for the image.
pub proof fn lemma_new_row_was_verified(
    history: Set<HistoryRecordView>,
    images: Seq<CloudImageView>,
    contents: Seq<Option<Seq<u8>>>,
    row: HistoryRecordView,
)
    requires
        images.len() == contents.len(),
        history_after_all(history, images, contents).contains(row),
        !history.contains(row),
    ensures
        exists|i: int|
            0 <= i < images.len() && row == record_of(#[trigger] images[i]) && contents[i] is Some
                && verification_of(images[i].checksum, contents[i]->0) == Some(true),
    decreases images.len(),
{
    if images.len() > 0 {
        let n = images.len() - 1;
        let before = history_after_all(history, images.drop_last(), contents.drop_last());
        if before.contains(row) {
            lemma_new_row_was_verified(history, images.drop_last(), contents.drop_last(), row);
            let i = choose|i: int|
                0 <= i < images.drop_last().len() && row == record_of(
                    #[trigger] images.drop_last()[i],
                ) && contents.drop_last()[i] is Some && verification_of(
                    images.drop_last()[i].checksum,
                    contents.drop_last()[i]->0,
                ) == Some(true);
            assert(images[i] == images.drop_last()[i]);
            assert(contents[i] == contents.drop_last()[i]);
        } else {
            assert(row == record_of(images[n]));
            assert(contents[n] is Some);
        }
    }
}

/// An image without published digest never enters the history: whatever
/// its file holds, verification leaves the history as it was.
pub proof fn lemma_no_digest_no_record(
    history: Set<HistoryRecordView>,
    image: CloudImageView,
    content: Option<Seq<u8>>,
)
    requires
        image.checksum is Missing,
    ensures
        !verification_result(image.checksum, content).earns_record(),
        history_after(history, image, verification_result(image.checksum, content)) == history,
{
}

/// A file that is gone, or that has another digest than the published
/// one, does not enter the history.
pub proof fn lemma_bad_file_no_record(
    history: Set<HistoryRecordView>,
    image: CloudImageView,
    content: Option<Seq<u8>>,
)
    requires
        content is None || verification_of(image.checksum, content->0) == Some(false),
    ensures
        history_after(history, image, verification_result(image.checksum, content)) == history,
{
}

} // verus!
