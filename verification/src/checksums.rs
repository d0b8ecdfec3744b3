//! Extraction of an image's digest from the body of a checksum file.

use crate::text::{
    contains, contains_chars, copy_range, from_chars, has_char, lemma_first_line_len_is, lines,
    occurs_at, rows_view, same_chars, split_lines, to_chars,
};
use vstd::prelude::*;

verus! {

/// The digest published for an image.
#[derive(PartialEq, Eq, Debug)]
pub enum CheckSums {
    /// A SHA-256 digest, as lowercase hexadecimal text.
    Sha256(String),
    /// A SHA-512 digest, as lowercase hexadecimal text.
    Sha512(String),
    /// No digest is known.
    Missing,
}

/// The mathematical value of a [`CheckSums`].
pub enum CheckSumsView {
    Sha256(Seq<char>),
    Sha512(Seq<char>),
    Missing,
}

/// Number of hexadecimal digits of a SHA-256 digest.
pub const SHA256_HEX_LEN: usize = 64;

/// Number of hexadecimal digits of a SHA-512 digest.
pub const SHA512_HEX_LEN: usize = 128;

impl View for CheckSums {
    type V = CheckSumsView;

    open spec fn view(&self) -> CheckSumsView {
        match self {
            CheckSums::Sha256(h) => CheckSumsView::Sha256(h@),
            CheckSums::Sha512(h) => CheckSumsView::Sha512(h@),
            CheckSums::Missing => CheckSumsView::Missing,
        }
    }
}

/// `c` is a lowercase hexadecimal digit.
pub open spec fn is_hex_digit(c: char) -> bool {
    ('0' <= c && c <= '9') || ('a' <= c && c <= 'f')
}

/// Every character of `s` is a lowercase hexadecimal digit.
pub open spec fn is_hex_run(s: Seq<char>) -> bool {
    forall|i: int| 0 <= i < s.len() ==> is_hex_digit(#[trigger] s[i])
}

/// The `n` characters of `line` from index `i` on are lowercase hexadecimal
/// digits.
pub open spec fn hex_window_at(line: Seq<char>, n: nat, i: int) -> bool {
    &&& 0 <= i
    &&& i + n <= line.len()
    &&& is_hex_run(line.subrange(i, i + n))
}

/// The leftmost run of `n` lowercase hexadecimal digits of `line` that starts
/// at index `from` or later.
pub open spec fn first_hex_window_from(line: Seq<char>, n: nat, from: int) -> Option<Seq<char>>
    decreases line.len() - from,
{
    if from < 0 || from + n > line.len() {
        None
    } else if hex_window_at(line, n, from) {
        Some(line.subrange(from, from + n))
    } else {
        first_hex_window_from(line, n, from + 1)
    }
}

/// The leftmost run of `n` lowercase hexadecimal digits of `line`.
pub open spec fn first_hex_window(line: Seq<char>, n: nat) -> Option<Seq<char>> {
    first_hex_window_from(line, n, 0)
}

/// The line calls for a SHA-512 digest: the checksum file is named after
/// that algorithm, or the line names it.
pub open spec fn wants_sha512(line: Seq<char>, filename: Seq<char>) -> bool {
    contains(filename, "SHA512SUMS"@) || contains(line, "SHA512"@)
}

/// The line calls for a SHA-256 digest: the checksum file is named after
/// that algorithm, or the line names it.
pub open spec fn wants_sha256(line: Seq<char>, filename: Seq<char>) -> bool {
    contains(filename, "SHA256SUMS"@) || contains(line, "SHA256"@)
}

/// The digest that `line` of the checksum file `filename` gives. SHA-512 is
/// tried before SHA-256.
pub open spec fn checksum_of_line(line: Seq<char>, filename: Seq<char>) -> CheckSumsView {
    if wants_sha512(line, filename) {
        match first_hex_window(line, SHA512_HEX_LEN as nat) {
            Some(h) => CheckSumsView::Sha512(h),
            None => CheckSumsView::Missing,
        }
    } else if wants_sha256(line, filename) {
        match first_hex_window(line, SHA256_HEX_LEN as nat) {
            Some(h) => CheckSumsView::Sha256(h),
            None => CheckSumsView::Missing,
        }
    } else {
        CheckSumsView::Missing
    }
}

/// `line` is about the image `name`: it is not empty, is no comment, and
/// holds the name.
pub open spec fn line_names_image(line: Seq<char>, name: Seq<char>) -> bool {
    line.len() > 0 && line[0] != '#' && contains(line, name)
}

/// The digest given by the first of `rows` that is about the image `name`.
pub open spec fn checksum_in_lines(
    name: Seq<char>,
    rows: Seq<Seq<char>>,
    filename: Seq<char>,
) -> CheckSumsView
    decreases rows.len(),
{
    if rows.len() == 0 {
        CheckSumsView::Missing
    } else if line_names_image(rows[0], name) {
        checksum_of_line(rows[0], filename)
    } else {
        checksum_in_lines(name, rows.drop_first(), filename)
    }
}

/// The digest of the image `name` according to the body `buffer` of the
/// checksum file `filename`.
pub open spec fn checksum_in_buffer(
    name: Seq<char>,
    buffer: Option<Seq<char>>,
    filename: Seq<char>,
) -> CheckSumsView {
    match buffer {
        Some(body) => checksum_in_lines(name, lines(body), filename),
        None => CheckSumsView::Missing,
    }
}

/// `s` names a file that holds the checksums of every image of its
/// directory.
pub open spec fn is_aggregate_checksum_filename(s: Seq<char>) -> bool {
    contains(s, "-CHECKSUM"@) || s == "CHECKSUM"@ || s == "SHA256SUMS"@ || s == "SHA512SUMS"@
}

/// One line of a checksum file: the digest, two spaces, the image's name.
pub open spec fn checksum_line(hex: Seq<char>, name: Seq<char>) -> Seq<char> {
    hex + seq![' ', ' '] + name
}

impl CheckSumsView {
    /// The digest has the length of its algorithm and holds lowercase
    /// hexadecimal digits only.
    pub open spec fn wf(self) -> bool {
        match self {
            CheckSumsView::Sha256(h) => h.len() == SHA256_HEX_LEN && is_hex_run(h),
            CheckSumsView::Sha512(h) => h.len() == SHA512_HEX_LEN && is_hex_run(h),
            CheckSumsView::Missing => true,
        }
    }

    /// The digest as it is written out: its text and a line feed.
    pub open spec fn rendered(self) -> Seq<char> {
        match self {
            CheckSumsView::Sha256(h) => h.push('\n'),
            CheckSumsView::Sha512(h) => h.push('\n'),
            CheckSumsView::Missing => seq!['\n'],
        }
    }
}

/// Whether `c` is a lowercase hexadecimal digit.
pub fn hex_digit(c: char) -> (r: bool)
    ensures
        r == is_hex_digit(c),
{
    (c >= '0' && c <= '9') || (c >= 'a' && c <= 'f')
}

/// A found window has the asked length and holds hexadecimal digits only.
pub proof fn lemma_first_hex_window_wf(line: Seq<char>, n: nat, from: int)
    ensures
        first_hex_window_from(line, n, from) matches Some(h) ==> h.len() == n && is_hex_run(h),
    decreases line.len() - from,
{
    if from < 0 || from + n > line.len() {
    } else if hex_window_at(line, n, from) {
    } else {
        lemma_first_hex_window_wf(line, n, from + 1);
    }
}

/// The leftmost run of `n` hexadecimal digits in `line`.
fn find_hex_window(line: &Vec<char>, n: usize) -> (r: Option<Vec<char>>)
    ensures
        r is Some <==> first_hex_window(line@, n as nat) is Some,
        r matches Some(h) ==> first_hex_window(line@, n as nat) == Some(h@),
{
    if n > line.len() {
        return None;
    }
    let last: usize = line.len() - n;
    let mut from: usize = 0;
    loop
        invariant
            from <= last,
            last == line.len() - n,
            first_hex_window(line@, n as nat) == first_hex_window_from(
                line@,
                n as nat,
                from as int,
            ),
        decreases last - from,
    {
        if is_hex_window(line, n, from) {
            let h = copy_range(line, from, from + n);
            return Some(h);
        }
        if from == last {
            assert(first_hex_window_from(line@, n as nat, from + 1) is None);
            return None;
        }
        from += 1;
    }
}

/// Whether the `n` characters of `line` from `from` on are hexadecimal
/// digits.
fn is_hex_window(line: &Vec<char>, n: usize, from: usize) -> (r: bool)
    requires
        from + n <= line.len(),
    ensures
        r == hex_window_at(line@, n as nat, from as int),
{
    let mut k: usize = 0;
    while k < n
        invariant
            k <= n,
            from + n <= line.len(),
            is_hex_run(line@.subrange(from as int, from + k)),
        decreases n - k,
    {
        if !hex_digit(line[from + k]) {
            proof {
                let w = line@.subrange(from as int, from + n);
                assert(w[k as int] == line@[from + k]);
            }
            return false;
        }
        proof {
            let shorter = line@.subrange(from as int, from + k);
            let longer = line@.subrange(from as int, from + k + 1);
            assert forall|i: int| 0 <= i < longer.len() implies is_hex_digit(
                #[trigger] longer[i],
            ) by {
                if i < k {
                    assert(longer[i] == shorter[i]);
                }
            }
        }
        k += 1;
    }
    true
}

impl Default for CheckSums {
    /// No digest.
    fn default() -> (r: Self)
        ensures
            r@ == CheckSumsView::Missing,
    {
        CheckSums::Missing
    }
}

impl CheckSums {
    /// The digest found in `line`, a line of the checksum file `filename`.
    pub fn build_checksums_from_line(line: &str, filename: &str) -> (r: CheckSums)
        ensures
            r@ == checksum_of_line(line@, filename@),
            r@.wf(),
    {
        let row = to_chars(line);
        let file = to_chars(filename);
        CheckSums::of_line(&row, &file)
    }

    /// The digest found in `line`, a line of the checksum file `filename`.
    fn of_line(line: &Vec<char>, filename: &Vec<char>) -> (r: CheckSums)
        ensures
            r@ == checksum_of_line(line@, filename@),
            r@.wf(),
    {
        proof {
            lemma_first_hex_window_wf(line@, SHA512_HEX_LEN as nat, 0);
            lemma_first_hex_window_wf(line@, SHA256_HEX_LEN as nat, 0);
        }
        let sha512sums = to_chars("SHA512SUMS");
        let sha512 = to_chars("SHA512");
        if contains_chars(filename, &sha512sums) || contains_chars(line, &sha512) {
            return match find_hex_window(line, SHA512_HEX_LEN) {
                Some(h) => CheckSums::Sha512(from_chars(&h)),
                None => CheckSums::Missing,
            };
        }
        let sha256sums = to_chars("SHA256SUMS");
        let sha256 = to_chars("SHA256");
        if contains_chars(filename, &sha256sums) || contains_chars(line, &sha256) {
            return match find_hex_window(line, SHA256_HEX_LEN) {
                Some(h) => CheckSums::Sha256(from_chars(&h)),
                None => CheckSums::Missing,
            };
        }
        CheckSums::Missing
    }

    /// The digest of the image `name` in `checksums`, the body of the
    /// checksum file `filename`: the digest of the first line that is not
    /// empty, is no comment and holds `name`.
    pub fn get_image_checksum_from_checksums_buffer(
        name: &str,
        checksums: &Option<String>,
        filename: &str,
    ) -> (r: CheckSums)
        ensures
            r@ == checksum_in_buffer(name@, crate::text::opt_view(*checksums), filename@),
            r@.wf(),
    {
        match checksums {
            Some(buffer) => {
                let image = to_chars(name);
                let file = to_chars(filename);
                let body = to_chars(buffer.as_str());
                let rows = split_lines(&body);
                let mut i: usize = 0;
                assert(rows_view(rows@).skip(0) =~= rows_view(rows@));
                while i < rows.len()
                    invariant
                        i <= rows.len(),
                        crate::text::opt_view(*checksums) == Some(buffer@),
                        image@ == name@,
                        file@ == filename@,
                        rows_view(rows@) == lines(buffer@),
                        checksum_in_lines(name@, lines(buffer@), filename@) == checksum_in_lines(
                            name@,
                            rows_view(rows@).skip(i as int),
                            filename@,
                        ),
                    decreases rows.len() - i,
                {
                    let row = &rows[i];
                    let ghost rest = rows_view(rows@).skip(i as int);
                    assert(rest[0] == row@);
                    assert(rest.drop_first() == rows_view(rows@).skip(i + 1));
                    if row.len() > 0 && row[0] != '#' && contains_chars(row, &image) {
                        assert(line_names_image(rest[0], name@));
                        assert(checksum_in_lines(name@, rest, filename@) == checksum_of_line(
                            row@,
                            filename@,
                        ));
                        return CheckSums::of_line(row, &file);
                    }
                    i += 1;
                }
                CheckSums::Missing
            },
            None => CheckSums::Missing,
        }
    }

    /// The digest as it is written out and stored: its hexadecimal text
    /// followed by a line feed, or the line feed alone when there is none.
    pub fn to_string(&self) -> (r: String)
        ensures
            r@ == self@.rendered(),
    {
        let mut out = match self {
            CheckSums::Sha256(h) => h.clone(),
            CheckSums::Sha512(h) => h.clone(),
            CheckSums::Missing => String::new(),
        };
        out.push('\n');
        out
    }

    /// A copy of the digest.
    pub fn duplicate(&self) -> (r: CheckSums)
        ensures
            r@ == self@,
    {
        match self {
            CheckSums::Sha256(h) => CheckSums::Sha256(h.clone()),
            CheckSums::Sha512(h) => CheckSums::Sha512(h.clone()),
            CheckSums::Missing => CheckSums::Missing,
        }
    }
}

/// Whether `inner` names a file that holds the checksums of every image of
/// its directory: a name that holds `-CHECKSUM`, or exactly `CHECKSUM`,
/// `SHA256SUMS` or `SHA512SUMS`.
pub fn are_all_checksums_in_one_file(inner: &str) -> (r: bool)
    ensures
        r == is_aggregate_checksum_filename(inner@),
{
    let name = to_chars(inner);
    let dash_checksum = to_chars("-CHECKSUM");
    let checksum = to_chars("CHECKSUM");
    let sha256sums = to_chars("SHA256SUMS");
    let sha512sums = to_chars("SHA512SUMS");
    contains_chars(&name, &dash_checksum) || same_chars(&name, &checksum) || same_chars(
        &name,
        &sha256sums,
    ) || same_chars(&name, &sha512sums)
}

/// A checksum line is the only line of its text, names its image and
/// starts with its digest.
proof fn lemma_checksum_line_shape(hex: Seq<char>, name: Seq<char>, n: nat)
    requires
        hex.len() == n,
        n > 0,
        is_hex_run(hex),
        !has_char(name, '\n'),
    ensures
        lines(checksum_line(hex, name)) == seq![checksum_line(hex, name)],
        line_names_image(checksum_line(hex, name), name),
        first_hex_window(checksum_line(hex, name), n) == Some(hex),
{
    let line = checksum_line(hex, name);
    assert forall|j: int| 0 <= j < line.len() implies line[j] != '\n' by {
        if j < n {
            assert(line[j] == hex[j]);
            assert(is_hex_digit(hex[j]));
        } else if j >= n + 2 {
            assert(line[j] == name[j - n - 2]);
        }
    }
    lemma_first_line_len_is(line, line.len() as int);
    assert(line[0] == hex[0]);
    assert(is_hex_digit(hex[0]));
    let at: int = n as int + 2;
    assert(line.subrange(at, at + name.len()) =~= name);
    assert(occurs_at(line, name, at));
    assert(line.subrange(0, n as int) =~= hex);
    assert(hex_window_at(line, n, 0));
}

/// A text that starts with `S` occurs in a checksum line only where it
/// occurs in the image's name.
proof fn lemma_key_only_in_name(hex: Seq<char>, name: Seq<char>, key: Seq<char>)
    requires
        is_hex_run(hex),
        key.len() > 0,
        key[0] == 'S',
        !contains(name, key),
    ensures
        !contains(checksum_line(hex, name), key),
{
    let line = checksum_line(hex, name);
    let n = hex.len() as int;
    if contains(line, key) {
        let i = choose|i: int| occurs_at(line, key, i);
        assert(line.subrange(i, i + key.len())[0] == 'S');
        assert(line[i] == 'S');
        if i < n {
            assert(line[i] == hex[i]);
            assert(is_hex_digit(hex[i]));
        } else if i < n + 2 {
            assert(line[i] == ' ');
        } else {
            assert(name.subrange(i - n - 2, i - n - 2 + key.len()) =~= line.subrange(
                i,
                i + key.len(),
            ));
            assert(occurs_at(name, key, i - n - 2));
        }
    }
}

/// Parsing gives back the SHA-256 digest that a checksum line was written
/// with: for a digest `hex` of 64 lowercase hexadecimal digits and an image
/// `name`, the line `hex`, two spaces, `name` of a file of SHA-256 digests
/// parses to `hex`. Left out are names that hold a line feed or `SHA512`,
/// and files named after SHA-512: there the line is read otherwise.
pub proof fn lemma_parse_of_formatted_sha256(hex: Seq<char>, name: Seq<char>, filename: Seq<char>)
    requires
        hex.len() == SHA256_HEX_LEN,
        is_hex_run(hex),
        !has_char(name, '\n'),
        !contains(name, "SHA512"@),
        contains(filename, "SHA256SUMS"@),
        !contains(filename, "SHA512SUMS"@),
    ensures
        checksum_in_buffer(name, Some(checksum_line(hex, name)), filename) == CheckSumsView::Sha256(
            hex,
        ),
{
    let line = checksum_line(hex, name);
    lemma_checksum_line_shape(hex, name, SHA256_HEX_LEN as nat);
    assert("SHA512"@.len() == 6 && "SHA512"@[0] == 'S') by {
        reveal_strlit("SHA512");
    }
    lemma_key_only_in_name(hex, name, "SHA512"@);
    assert(seq![line][0] == line);
}

/// Parsing gives back the SHA-512 digest that a checksum line was written
/// with: for a digest `hex` of 128 lowercase hexadecimal digits and an
/// image `name` without line feed, the line `hex`, two spaces, `name` of a
/// file of SHA-512 digests parses to `hex`.
pub proof fn lemma_parse_of_formatted_sha512(hex: Seq<char>, name: Seq<char>, filename: Seq<char>)
    requires
        hex.len() == SHA512_HEX_LEN,
        is_hex_run(hex),
        !has_char(name, '\n'),
        contains(filename, "SHA512SUMS"@),
    ensures
        checksum_in_buffer(name, Some(checksum_line(hex, name)), filename) == CheckSumsView::Sha512(
            hex,
        ),
{
    let line = checksum_line(hex, name);
    lemma_checksum_line_shape(hex, name, SHA512_HEX_LEN as nat);
    assert(seq![line][0] == line);
}

} // verus!
