//! Lists of images, ordered by the date that their address carries.

use crate::checksums::{CheckSums, CheckSumsView};
use crate::cloud_image::{verification_result, Verification};
pub use crate::digest::verify_file;
use crate::text::{
    chars_le, concat3, copy_range, lemma_lex_le_antisymmetric, lemma_lex_le_total,
    lemma_lex_le_transitive, lex_le, to_chars,
};
use std::cmp::Ordering;
use vstd::prelude::*;

verus! {

/// How one text stands to another.
#[derive(Clone, Copy, Debug, PartialEq, Eq, Structural)]
pub enum NameOrder {
    Before,
    Same,
    After,
}

/// `c` is a decimal digit not greater than `max`.
pub open spec fn is_digit_upto(c: char, max: char) -> bool {
    '0' <= c && c <= max
}

/// The eight characters of `s` from index `i` on read as a date of this
/// millennium: `2`, three digits, a month that starts with `0` or `1` and a
/// day that starts with `0` to `3`.
pub open spec fn date_token_at(s: Seq<char>, i: int) -> bool {
    &&& 0 <= i
    &&& i + 8 <= s.len()
    &&& s[i] == '2'
    &&& is_digit_upto(s[i + 1], '9')
    &&& is_digit_upto(s[i + 2], '9')
    &&& is_digit_upto(s[i + 3], '9')
    &&& is_digit_upto(s[i + 4], '1')
    &&& is_digit_upto(s[i + 5], '9')
    &&& is_digit_upto(s[i + 6], '3')
    &&& is_digit_upto(s[i + 7], '9')
}

/// The leftmost date that `s` carries at index `from` or later.
pub open spec fn first_date_from(s: Seq<char>, from: int) -> Option<Seq<char>>
    decreases s.len() - from,
{
    if from < 0 || from + 8 > s.len() {
        None
    } else if date_token_at(s, from) {
        Some(s.subrange(from, from + 8))
    } else {
        first_date_from(s, from + 1)
    }
}

/// The leftmost date that `s` carries.
pub open spec fn first_date(s: Seq<char>) -> Option<Seq<char>> {
    first_date_from(s, 0)
}

/// How `a` stands to `b` in the order of `str`.
pub open spec fn text_order(a: Seq<char>, b: Seq<char>) -> NameOrder {
    if a == b {
        NameOrder::Same
    } else if lex_le(a, b) {
        NameOrder::Before
    } else {
        NameOrder::After
    }
}

/// How the name `a` stands to the name `b`: by the dates that they carry; a
/// name without date comes before one with a date; two names without date
/// are ordered as texts.
pub open spec fn order_by_date(a: Seq<char>, b: Seq<char>) -> NameOrder {
    match (first_date(a), first_date(b)) {
        (Some(x), Some(y)) => text_order(x, y),
        (None, Some(_)) => NameOrder::Before,
        (Some(_), None) => NameOrder::After,
        (None, None) => text_order(a, b),
    }
}

/// The order that `o` stands for.
pub open spec fn order_of(o: Ordering) -> NameOrder {
    match o {
        Ordering::Less => NameOrder::Before,
        Ordering::Equal => NameOrder::Same,
        Ordering::Greater => NameOrder::After,
    }
}

/// Whether `c` is a decimal digit not greater than `max`.
fn digit_upto(c: char, max: char) -> (r: bool)
    ensures
        r == is_digit_upto(c, max),
{
    c >= '0' && c <= max
}

/// The leftmost date that `name` carries.
pub fn get_date_from_string(name: &Vec<char>) -> (r: Option<Vec<char>>)
    ensures
        r is Some <==> first_date(name@) is Some,
        r matches Some(d) ==> first_date(name@) == Some(d@),
{
    if name.len() < 8 {
        return None;
    }
    let last: usize = name.len() - 8;
    let mut from: usize = 0;
    loop
        invariant
            from <= last,
            last == name.len() - 8,
            first_date(name@) == first_date_from(name@, from as int),
        decreases last - from,
    {
        if name[from] == '2' && digit_upto(name[from + 1], '9') && digit_upto(name[from + 2], '9')
            && digit_upto(name[from + 3], '9') && digit_upto(name[from + 4], '1') && digit_upto(
            name[from + 5],
            '9',
        ) && digit_upto(name[from + 6], '3') && digit_upto(name[from + 7], '9') {
            return Some(copy_range(name, from, from + 8));
        }
        if from == last {
            assert(first_date_from(name@, from + 1) is None);
            return None;
        }
        from += 1;
    }
}

/// How `a` stands to `b` in the order of `str`.
pub fn order_texts(a: &Vec<char>, b: &Vec<char>) -> (r: NameOrder)
    ensures
        r == text_order(a@, b@),
{
    let le = chars_le(a, b);
    let ge = chars_le(b, a);
    proof {
        if le && ge {
            lemma_lex_le_antisymmetric(a@, b@);
        }
        if a@ == b@ {
            lemma_lex_le_total(a@, b@);
        }
    }
    if le && ge {
        NameOrder::Same
    } else if le {
        NameOrder::Before
    } else {
        NameOrder::After
    }
}

/// How the name `a` stands to the name `b`, by the dates that they carry.
pub fn order_names_by_date(a: &str, b: &str) -> (r: NameOrder)
    ensures
        r == order_by_date(a@, b@),
{
    let x = to_chars(a);
    let y = to_chars(b);
    match (get_date_from_string(&x), get_date_from_string(&y)) {
        (Some(d1), Some(d2)) => order_texts(&d1, &d2),
        (None, Some(_)) => NameOrder::Before,
        (Some(_), None) => NameOrder::After,
        (None, None) => order_texts(&x, &y),
    }
}

/// Compares two names by the dates that they carry: the leftmost date of
/// each, written as `2` and seven digits, decides; a name without date is
/// less than one with a date; two names without date compare as texts.
pub fn compare_str_by_date(a: &str, b: &str) -> (r: Ordering)
    ensures
        order_of(r) == order_by_date(a@, b@),
{
    match order_names_by_date(a, b) {
        NameOrder::Before => Ordering::Less,
        NameOrder::Same => Ordering::Equal,
        NameOrder::After => Ordering::Greater,
    }
}

/// An image known by its address and its digest.
#[derive(Default, PartialEq, Eq, Debug)]
pub struct CloudImage {
    pub url: String,
    pub checksum: CheckSums,
}

/// The mathematical value of a [`CloudImage`].
pub struct CloudImageView {
    pub url: Seq<char>,
    pub checksum: CheckSumsView,
}

impl View for CloudImage {
    type V = CloudImageView;

    open spec fn view(&self) -> CloudImageView {
        CloudImageView { url: self.url@, checksum: self.checksum@ }
    }
}

/// The values of a list of images.
pub open spec fn images_view(v: Seq<CloudImage>) -> Seq<CloudImageView> {
    Seq::new(v.len(), |i: int| v[i]@)
}

/// The name `a` does not come after the name `b` in the order by date.
pub open spec fn not_after(a: Seq<char>, b: Seq<char>) -> bool {
    order_by_date(a, b) != NameOrder::After
}

/// `list` with the image `x` put in by date: behind every image that does
/// not come after it, before those that do.
pub open spec fn insert_by_date(list: Seq<CloudImageView>, x: CloudImageView) -> Seq<
    CloudImageView,
>
    decreases list.len(),
{
    if list.len() == 0 {
        seq![x]
    } else if not_after(list.last().url, x.url) {
        list.push(x)
    } else {
        insert_by_date(list.drop_last(), x).push(list.last())
    }
}

/// `list` sorted by date, earliest first; images that compare the same
/// keep the order that they have in `list`.
pub open spec fn sorted_by_date(list: Seq<CloudImageView>) -> Seq<CloudImageView>
    decreases list.len(),
{
    if list.len() == 0 {
        Seq::empty()
    } else {
        insert_by_date(sorted_by_date(list.drop_last()), list.last())
    }
}

/// No image of `list` comes after a later one.
pub open spec fn is_sorted_by_date(list: Seq<CloudImageView>) -> bool {
    forall|i: int, j: int|
        0 <= i < j < list.len() ==> not_after((#[trigger] list[i]).url, (#[trigger] list[j]).url)
}

/// The line that describes an image: its address, and its digest where one
/// is known.
pub open spec fn image_line(image: CloudImageView) -> Seq<char> {
    match image.checksum {
        CheckSumsView::Missing => "\t-> "@ + image.url + "\n"@,
        CheckSumsView::Sha256(h) => "\t-> "@ + image.url + " with checksum "@ + h + "\n"@,
        CheckSumsView::Sha512(h) => "\t-> "@ + image.url + " with checksum "@ + h + "\n"@,
    }
}

/// In the order of texts, not coming after is coming before or being the
/// same.
proof fn lemma_text_order(a: Seq<char>, b: Seq<char>)
    ensures
        text_order(a, b) != NameOrder::After <==> lex_le(a, b),
{
    if a == b {
        lemma_lex_le_total(a, b);
    }
}

/// The order by date is transitive.
pub proof fn lemma_not_after_transitive(a: Seq<char>, b: Seq<char>, c: Seq<char>)
    requires
        not_after(a, b),
        not_after(b, c),
    ensures
        not_after(a, c),
{
    lemma_text_order(a, b);
    lemma_text_order(b, c);
    lemma_text_order(a, c);
    match (first_date(a), first_date(b), first_date(c)) {
        (Some(x), Some(y), Some(z)) => {
            lemma_text_order(x, y);
            lemma_text_order(y, z);
            lemma_text_order(x, z);
            lemma_lex_le_transitive(x, y, z);
        },
        (None, None, None) => {
            lemma_lex_le_transitive(a, b, c);
        },
        _ => {},
    }
}

/// Of two names, one does not come after the other.
pub proof fn lemma_not_after_total(a: Seq<char>, b: Seq<char>)
    ensures
        not_after(a, b) || not_after(b, a),
{
    lemma_text_order(a, b);
    lemma_text_order(b, a);
    lemma_lex_le_total(a, b);
    match (first_date(a), first_date(b)) {
        (Some(x), Some(y)) => {
            lemma_text_order(x, y);
            lemma_text_order(y, x);
            lemma_lex_le_total(x, y);
        },
        _ => {},
    }
}

/// Where `x` belongs in a sorted list: behind the first `k` images, when
/// the image before that place does not come after `x` and every image
/// from that place on does.
proof fn lemma_insert_position(list: Seq<CloudImageView>, x: CloudImageView, k: int)
    requires
        0 <= k <= list.len(),
        k > 0 ==> not_after(list[k - 1].url, x.url),
        forall|j: int| k <= j < list.len() ==> !not_after((#[trigger] list[j]).url, x.url),
    ensures
        insert_by_date(list, x) == list.insert(k, x),
    decreases list.len(),
{
    if list.len() == 0 {
        assert(list.insert(0, x) =~= seq![x]);
    } else if k == list.len() {
        assert(list.insert(k, x) =~= list.push(x));
    } else {
        assert(!not_after(list.last().url, x.url));
        let shorter = list.drop_last();
        assert forall|j: int| k <= j < shorter.len() implies !not_after(
            (#[trigger] shorter[j]).url,
            x.url,
        ) by {
            assert(shorter[j] == list[j]);
        }
        lemma_insert_position(shorter, x, k);
        assert(shorter.insert(k, x).push(list.last()) =~= list.insert(k, x));
    }
}

/// Putting an image into a sorted list by date keeps the list sorted and
/// adds the image to what the list holds.
pub proof fn lemma_insert_by_date(list: Seq<CloudImageView>, x: CloudImageView)
    requires
        is_sorted_by_date(list),
    ensures
        is_sorted_by_date(insert_by_date(list, x)),
        insert_by_date(list, x).to_multiset() == list.to_multiset().insert(x),
        insert_by_date(list, x).len() == list.len() + 1,
    decreases list.len(),
{
    broadcast use vstd::seq_lib::group_to_multiset_ensures;

    let out = insert_by_date(list, x);
    if list.len() == 0 {
        assert(list =~= Seq::empty());
    } else if not_after(list.last().url, x.url) {
        assert forall|i: int, j: int| 0 <= i < j < out.len() implies not_after(
            (#[trigger] out[i]).url,
            (#[trigger] out[j]).url,
        ) by {
            if j == list.len() {
                if i < list.len() - 1 {
                    assert(not_after(list[i].url, list[list.len() - 1].url));
                    lemma_not_after_transitive(list[i].url, list.last().url, x.url);
                }
            } else {
                assert(not_after(list[i].url, list[j].url));
            }
        }
    } else {
        let shorter = list.drop_last();
        let last = list.last();
        assert forall|i: int, j: int| 0 <= i < j < shorter.len() implies not_after(
            (#[trigger] shorter[i]).url,
            (#[trigger] shorter[j]).url,
        ) by {
            assert(not_after(list[i].url, list[j].url));
        }
        lemma_insert_by_date(shorter, x);
        let inner = insert_by_date(shorter, x);
        assert(list =~= shorter.push(last));
        assert(out == inner.push(last));
        assert(out.to_multiset() =~= list.to_multiset().insert(x));
        lemma_not_after_total(last.url, x.url);
        assert forall|i: int| 0 <= i < inner.len() implies not_after(
            (#[trigger] inner[i]).url,
            last.url,
        ) by {
            // Every image of `inner` is `x` or an image of `shorter`.
            assert(inner.to_multiset().count(inner[i]) > 0);
            if inner[i] == x {
            } else {
                assert(shorter.to_multiset().count(inner[i]) > 0);
                assert(shorter.contains(inner[i]));
                let w = choose|w: int| 0 <= w < shorter.len() && shorter[w] == inner[i];
                assert(not_after(list[w].url, list[list.len() - 1].url));
            }
        }
        assert forall|i: int, j: int| 0 <= i < j < out.len() implies not_after(
            (#[trigger] out[i]).url,
            (#[trigger] out[j]).url,
        ) by {
            if j < inner.len() {
                assert(not_after(inner[i].url, inner[j].url));
            }
        }
    }
}

/// Sorting by date gives a sorted list that holds the same images.
pub proof fn lemma_sorted_by_date(list: Seq<CloudImageView>)
    ensures
        is_sorted_by_date(sorted_by_date(list)),
        sorted_by_date(list).to_multiset() == list.to_multiset(),
        sorted_by_date(list).len() == list.len(),
    decreases list.len(),
{
    broadcast use vstd::seq_lib::group_to_multiset_ensures;

    if list.len() == 0 {
        assert(list =~= Seq::empty());
    } else {
        lemma_sorted_by_date(list.drop_last());
        lemma_insert_by_date(sorted_by_date(list.drop_last()), list.last());
        assert(list =~= list.drop_last().push(list.last()));
    }
}

impl CloudImage {
    /// The image of the given address and digest.
    pub fn new(url: String, checksum: CheckSums) -> (r: Self)
        ensures
            r@ == (CloudImageView { url: url@, checksum: checksum@ }),
    {
        CloudImage { url, checksum }
    }

    /// Compares two images by the dates that their addresses carry.
    pub fn compare_dates_in_names(&self, other: &Self) -> (r: Ordering)
        ensures
            order_of(r) == order_by_date(self@.url, other@.url),
    {
        compare_str_by_date(self.url.as_str(), other.url.as_str())
    }

    /// Whether the downloaded file passes: it has the digest of the image,
    /// or the image has none. `content` is what was read of the file, or
    /// `None` where it could not be read: such a file does not pass.
    pub fn verify(&self, content: &Option<Vec<u8>>) -> (r: bool)
        ensures
            r == verification_result(
                self@.checksum,
                match *content {
                    Some(bytes) => Some(bytes@),
                    None => None,
                },
            ).passes(),
    {
        match content {
            None => false,
            Some(bytes) => Verification::of(verify_file(bytes.as_slice(), &self.checksum)).passed(),
        }
    }

    /// The line that describes the image.
    pub fn to_string(&self) -> (r: String)
        ensures
            r@ == image_line(self@),
    {
        match &self.checksum {
            CheckSums::Missing => concat3("\t-> ", self.url.as_str(), "\n"),
            CheckSums::Sha256(h) => {
                let head = concat3("\t-> ", self.url.as_str(), " with checksum ");
                concat3(head.as_str(), h.as_str(), "\n")
            },
            CheckSums::Sha512(h) => {
                let head = concat3("\t-> ", self.url.as_str(), " with checksum ");
                concat3(head.as_str(), h.as_str(), "\n")
            },
        }
    }
}

/// A list of images.
#[derive(Default, Debug)]
pub struct ImageList {
    pub list: Vec<CloudImage>,
}

impl View for ImageList {
    type V = Seq<CloudImageView>;

    open spec fn view(&self) -> Seq<CloudImageView> {
        images_view(self.list@)
    }
}

impl ImageList {
    /// The empty list.
    pub fn new() -> (r: Self)
        ensures
            r@ == Seq::<CloudImageView>::empty(),
    {
        let list: Vec<CloudImage> = Vec::new();
        assert(images_view(list@) =~= Seq::<CloudImageView>::empty());
        ImageList { list }
    }

    /// Adds an image at the end of the list.
    pub fn push(&mut self, cloudimage: CloudImage) -> (r: &mut Self)
        ensures
            r@ == old(self)@.push(cloudimage@),
            *final(self) == *final(r),
    {
        self.list.push(cloudimage);
        assert(images_view(self.list@) =~= old(self)@.push(cloudimage@));
        self
    }

    /// Adds the images of another list at the end of the list.
    pub fn extend(&mut self, image_list: ImageList) -> (r: &mut Self)
        ensures
            r@ == old(self)@ + image_list@,
            *final(self) == *final(r),
    {
        let mut other = image_list.list;
        let ghost tail = images_view(other@);
        let ghost head = old(self)@;
        self.list.append(&mut other);
        assert(images_view(self.list@) =~= head + tail);
        self
    }

    /// Sorts the list by the dates that the addresses carry, earliest
    /// first; images that compare the same keep their order.
    pub fn sort_by_date(&mut self)
        ensures
            final(self)@ == sorted_by_date(old(self)@),
            is_sorted_by_date(final(self)@),
            final(self)@.to_multiset() == old(self)@.to_multiset(),
    {
        let ghost all = self@;
        let mut rest: Vec<CloudImage> = Vec::new();
        std::mem::swap(&mut self.list, &mut rest);
        assert(images_view(self.list@) =~= Seq::<CloudImageView>::empty());
        assert(all.take(0) =~= Seq::<CloudImageView>::empty());
        let total = rest.len();
        let mut done: usize = 0;
        while rest.len() > 0
            invariant
                done + rest.len() == total,
                total == all.len(),
                images_view(rest@) == all.skip(done as int),
                images_view(self.list@) == sorted_by_date(all.take(done as int)),
                self.list.len() == done,
            decreases rest.len(),
        {
            let ghost sorted = images_view(self.list@);
            let ghost remaining = images_view(rest@);
            let ghost waiting = rest@;
            let image = rest.remove(0);
            assert(image@ == remaining[0]);
            assert(image@ == all[done as int]);
            assert forall|i: int| 0 <= i < rest@.len() implies images_view(rest@)[i] == all.skip(
                done + 1,
            )[i] by {
                assert(rest@[i] == waiting[i + 1]);
                assert(remaining[i + 1] == waiting[i + 1]@);
            }
            assert(images_view(rest@) =~= all.skip(done + 1));
            proof {
                lemma_sorted_by_date(all.take(done as int));
            }
            let mut k: usize = self.list.len();
            while k > 0 && order_names_by_date(self.list[k - 1].url.as_str(), image.url.as_str())
                == NameOrder::After
                invariant
                    k <= self.list.len(),
                    sorted == images_view(self.list@),
                    forall|j: int|
                        k <= j < sorted.len() ==> !not_after((#[trigger] sorted[j]).url, image@.url),
                decreases k,
            {
                k -= 1;
            }
            proof {
                lemma_insert_position(sorted, image@, k as int);
                assert(all.take(done + 1).drop_last() =~= all.take(done as int));
                assert(all.take(done + 1).last() == all[done as int]);
            }
            let ghost value = image@;
            self.list.insert(k, image);
            assert(images_view(self.list@) =~= sorted.insert(k as int, value));
            done += 1;
        }
        assert(all.take(done as int) =~= all);
        proof {
            lemma_sorted_by_date(all);
        }
    }

    /// Keeps the last image of the list only.
    pub fn only_keep_last_element(&mut self)
        ensures
            old(self)@.len() == 0 ==> final(self)@ == old(self)@,
            old(self)@.len() > 0 ==> final(self)@ == seq![old(self)@.last()],
    {
        let len = self.list.len();
        if len >= 1 {
            let ghost before = self@;
            let last = self.list.swap_remove(len - 1);
            assert(last@ == before.last());
            let mut kept: Vec<CloudImage> = Vec::new();
            kept.push(last);
            self.list = kept;
            assert(images_view(self.list@) =~= seq![before.last()]);
        }
    }

    /// Whether the list holds no image.
    pub fn is_empty(&self) -> (r: bool)
        ensures
            r == (self@.len() == 0),
    {
        self.list.is_empty()
    }

    /// The lines that describe the images, one after the other.
    pub fn to_string(&self) -> (r: String)
        ensures
            r@ == lines_of(self@, self@.len()),
    {
        let mut out: Vec<char> = Vec::new();
        let mut i: usize = 0;
        assert(out@ =~= Seq::<char>::empty());
        while i < self.list.len()
            invariant
                i <= self.list.len(),
                out@ == lines_of(self@, i as nat),
            decreases self.list.len() - i,
        {
            let line = self.list[i].to_string();
            let chars = to_chars(line.as_str());
            crate::text::append_chars(&mut out, &chars);
            i += 1;
        }
        crate::text::from_chars(&out)
    }
}

/// The lines that describe the first `n` images of `list`.
pub open spec fn lines_of(list: Seq<CloudImageView>, n: nat) -> Seq<char>
    decreases n,
{
    if n == 0 {
        Seq::empty()
    } else {
        lines_of(list, (n - 1) as nat) + image_line(list[n - 1])
    }
}

} // verus!
