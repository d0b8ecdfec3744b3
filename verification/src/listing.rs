//! Entries of a directory listing, and the choice of one among them.

use crate::text::{chars_le, lemma_lex_le_total, lemma_lex_le_transitive, lex_le, to_chars};
use crate::timestamp::Timestamp;
use vstd::prelude::*;

verus! {

/// What an entry of a listing stands for.
#[derive(Clone, Copy, Debug, PartialEq, Eq, Structural)]
pub enum EntryKind {
    /// The link to the directory above.
    ParentDirectory,
    /// A directory below.
    Directory,
    /// A file.
    File,
}

/// One entry of a directory listing.
#[derive(Debug, PartialEq, Eq)]
pub struct DirEntry {
    pub kind: EntryKind,
    /// The name as listed; a directory's name ends with `/` where the
    /// listing shows it so.
    pub name: String,
    /// When the entry was last modified, where the listing tells.
    pub date: Option<Timestamp>,
}

/// The mathematical value of a [`DirEntry`].
pub struct DirEntryView {
    pub kind: EntryKind,
    pub name: Seq<char>,
    pub date: Option<Timestamp>,
}

impl View for DirEntry {
    type V = DirEntryView;

    open spec fn view(&self) -> DirEntryView {
        DirEntryView { kind: self.kind, name: self.name@, date: self.date }
    }
}

/// The values of the entries of a listing.
pub open spec fn entries_view(v: Seq<DirEntry>) -> Seq<DirEntryView> {
    Seq::new(v.len(), |i: int| v[i]@)
}

/// The date `a` is not later than `b`; an entry without date is older than
/// any dated one.
pub open spec fn date_le(a: Option<Timestamp>, b: Option<Timestamp>) -> bool {
    match (a, b) {
        (None, _) => true,
        (Some(_), None) => false,
        (Some(x), Some(y)) => !y.earlier_than(&x),
    }
}

/// Entry `i` is kept and carries the greatest name among the kept entries;
/// of several with that name it is the first.
pub open spec fn is_first_greatest_name(
    entries: Seq<DirEntryView>,
    keep: Seq<bool>,
    i: int,
) -> bool {
    &&& 0 <= i < entries.len()
    &&& keep[i]
    &&& forall|j: int|
        0 <= j < entries.len() && keep[j] ==> lex_le(#[trigger] entries[j].name, entries[i].name)
    &&& forall|j: int|
        0 <= j < i && keep[j] ==> !lex_le(entries[i].name, #[trigger] entries[j].name)
}

/// Entry `i` is kept and carries the latest date among the kept entries; of
/// several with that date it is the first.
pub open spec fn is_first_newest(entries: Seq<DirEntryView>, keep: Seq<bool>, i: int) -> bool {
    &&& 0 <= i < entries.len()
    &&& keep[i]
    &&& forall|j: int|
        0 <= j < entries.len() && keep[j] ==> date_le(#[trigger] entries[j].date, entries[i].date)
    &&& forall|j: int|
        0 <= j < i && keep[j] ==> !date_le(entries[i].date, #[trigger] entries[j].date)
}

/// No entry is kept.
pub open spec fn none_kept(keep: Seq<bool>) -> bool {
    forall|j: int| 0 <= j < keep.len() ==> !#[trigger] keep[j]
}

/// At most one entry is the first with the greatest name.
pub proof fn lemma_first_greatest_name_unique(
    entries: Seq<DirEntryView>,
    keep: Seq<bool>,
    i: int,
    j: int,
)
    requires
        is_first_greatest_name(entries, keep, i),
        is_first_greatest_name(entries, keep, j),
    ensures
        i == j,
{
    if i < j {
        assert(lex_le(entries[j].name, entries[i].name));
    } else if j < i {
        assert(lex_le(entries[i].name, entries[j].name));
    }
}

/// At most one entry is the first with the latest date.
pub proof fn lemma_first_newest_unique(
    entries: Seq<DirEntryView>,
    keep: Seq<bool>,
    i: int,
    j: int,
)
    requires
        is_first_newest(entries, keep, i),
        is_first_newest(entries, keep, j),
    ensures
        i == j,
{
    if i < j {
        assert(date_le(entries[j].date, entries[i].date));
    } else if j < i {
        assert(date_le(entries[i].date, entries[j].date));
    }
}

/// Whether the date `a` is not later than `b`.
pub fn date_not_later(a: &Option<Timestamp>, b: &Option<Timestamp>) -> (r: bool)
    ensures
        r == date_le(*a, *b),
{
    match a {
        None => true,
        Some(x) => match b {
            None => false,
            Some(y) => !y.is_before(x),
        },
    }
}

/// Index of the kept entry with the greatest name, the first of them where
/// several carry it: the entry that comes first once the kept entries are
/// sorted by name, greatest first, without reordering equal names.
pub fn first_greatest_name(entries: &Vec<DirEntry>, keep: &Vec<bool>) -> (r: Option<usize>)
    requires
        keep.len() == entries.len(),
    ensures
        r is None <==> none_kept(keep@),
        r matches Some(i) ==> is_first_greatest_name(entries_view(entries@), keep@, i as int),
{
    let mut best: Option<(usize, Vec<char>)> = None;
    let mut k: usize = 0;
    while k < entries.len()
        invariant
            k <= entries.len(),
            keep.len() == entries.len(),
            best is None <==> none_kept(keep@.take(k as int)),
            best matches Some(b) ==> b.0 < k && b.1@ == entries@[b.0 as int].name@
                && is_first_greatest_name(
                entries_view(entries@).take(k as int),
                keep@.take(k as int),
                b.0 as int,
            ),
        decreases entries.len() - k,
    {
        let ghost all = entries_view(entries@);
        let ghost before = all.take(k as int);
        let ghost after = all.take(k + 1);
        let ghost kept_before = keep@.take(k as int);
        let ghost kept_after = keep@.take(k + 1);
        if keep[k] {
            let name = to_chars(entries[k].name.as_str());
            let replace = match &best {
                None => true,
                Some(b) => !chars_le(&name, &b.1),
            };
            if replace {
                proof {
                    assert forall|j: int| 0 <= j < after.len() && kept_after[j] implies lex_le(
                        #[trigger] after[j].name,
                        after[k as int].name,
                    ) by {
                        if j < k {
                            assert(kept_before[j]);
                            let b = best->0;
                            assert(lex_le(before[j].name, before[b.0 as int].name));
                            lemma_lex_le_total(name@, b.1@);
                            lemma_lex_le_transitive(after[j].name, b.1@, name@);
                        } else {
                            lemma_lex_le_total(name@, name@);
                        }
                    }
                    assert forall|j: int| 0 <= j < k && kept_after[j] implies !lex_le(
                        after[k as int].name,
                        #[trigger] after[j].name,
                    ) by {
                        assert(kept_before[j]);
                        let b = best->0;
                        assert(lex_le(before[j].name, before[b.0 as int].name));
                        if lex_le(name@, after[j].name) {
                            lemma_lex_le_transitive(name@, after[j].name, b.1@);
                        }
                    }
                    assert(kept_after[k as int]);
                }
                best = Some((k, name));
            } else {
                proof {
                    let b = best->0;
                    assert forall|j: int| 0 <= j < after.len() && kept_after[j] implies lex_le(
                        #[trigger] after[j].name,
                        after[b.0 as int].name,
                    ) by {
                        if j < k {
                            assert(kept_before[j]);
                            assert(lex_le(before[j].name, before[b.0 as int].name));
                        }
                    }
                    assert forall|j: int| 0 <= j < b.0 && kept_after[j] implies !lex_le(
                        after[b.0 as int].name,
                        #[trigger] after[j].name,
                    ) by {
                        assert(kept_before[j]);
                        assert(!lex_le(before[b.0 as int].name, before[j].name));
                    }
                    assert(kept_before[b.0 as int]);
                }
            }
        } else {
            proof {
                if best is Some {
                    let b = best->0;
                    assert forall|j: int| 0 <= j < after.len() && kept_after[j] implies lex_le(
                        #[trigger] after[j].name,
                        after[b.0 as int].name,
                    ) by {
                        assert(kept_before[j]);
                        assert(lex_le(before[j].name, before[b.0 as int].name));
                    }
                    assert forall|j: int| 0 <= j < b.0 && kept_after[j] implies !lex_le(
                        after[b.0 as int].name,
                        #[trigger] after[j].name,
                    ) by {
                        assert(kept_before[j]);
                        assert(!lex_le(before[b.0 as int].name, before[j].name));
                    }
                    assert(kept_before[b.0 as int]);
                } else {
                    assert forall|j: int| 0 <= j < kept_after.len() implies !#[trigger] kept_after[j] by {
                        if j < k {
                            assert(!kept_before[j]);
                        }
                    }
                }
            }
        }
        proof {
            if best is Some {
                assert(kept_after[(best->0).0 as int]);
            }
        }
        k += 1;
    }
    assert(entries_view(entries@).take(k as int) == entries_view(entries@));
    assert(keep@.take(k as int) == keep@);
    match best {
        Some(b) => Some(b.0),
        None => None,
    }
}

/// A date that is not later than a second one is not later than any date
/// that the second one is earlier than.
pub proof fn lemma_date_le_chain(a: Option<Timestamp>, b: Option<Timestamp>, c: Option<Timestamp>)
    requires
        date_le(a, b),
        !date_le(c, b),
    ensures
        date_le(a, c),
        !date_le(c, a),
{
}

/// Index of the kept entry with the latest date, the first of them where
/// several carry it: the entry that comes first once the kept entries are
/// sorted by date, latest first, without reordering equal dates.
pub fn first_newest(entries: &Vec<DirEntry>, keep: &Vec<bool>) -> (r: Option<usize>)
    requires
        keep.len() == entries.len(),
    ensures
        r is None <==> none_kept(keep@),
        r matches Some(i) ==> is_first_newest(entries_view(entries@), keep@, i as int),
{
    let mut best: Option<usize> = None;
    let mut k: usize = 0;
    while k < entries.len()
        invariant
            k <= entries.len(),
            keep.len() == entries.len(),
            best is None <==> none_kept(keep@.take(k as int)),
            best matches Some(b) ==> b < k && is_first_newest(
                entries_view(entries@).take(k as int),
                keep@.take(k as int),
                b as int,
            ),
        decreases entries.len() - k,
    {
        let ghost all = entries_view(entries@);
        let ghost before = all.take(k as int);
        let ghost after = all.take(k + 1);
        let ghost kept_before = keep@.take(k as int);
        let ghost kept_after = keep@.take(k + 1);
        let replace = keep[k] && match best {
            None => true,
            Some(b) => !date_not_later(&entries[k].date, &entries[b].date),
        };
        if replace {
            proof {
                assert forall|j: int| 0 <= j < after.len() && kept_after[j] implies date_le(
                    #[trigger] after[j].date,
                    after[k as int].date,
                ) by {
                    if j < k {
                        assert(kept_before[j]);
                        let b = best->0;
                        assert(date_le(before[j].date, before[b as int].date));
                        lemma_date_le_chain(after[j].date, after[b as int].date, after[k as int].date);
                    }
                }
                assert forall|j: int| 0 <= j < k && kept_after[j] implies !date_le(
                    after[k as int].date,
                    #[trigger] after[j].date,
                ) by {
                    assert(kept_before[j]);
                    let b = best->0;
                    assert(date_le(before[j].date, before[b as int].date));
                    lemma_date_le_chain(after[j].date, after[b as int].date, after[k as int].date);
                }
                assert(kept_after[k as int]);
            }
            best = Some(k);
        } else {
            proof {
                if best is Some {
                    let b = best->0;
                    assert forall|j: int| 0 <= j < after.len() && kept_after[j] implies date_le(
                        #[trigger] after[j].date,
                        after[b as int].date,
                    ) by {
                        if j < k {
                            assert(kept_before[j]);
                            assert(date_le(before[j].date, before[b as int].date));
                        }
                    }
                    assert forall|j: int| 0 <= j < b && kept_after[j] implies !date_le(
                        after[b as int].date,
                        #[trigger] after[j].date,
                    ) by {
                        assert(kept_before[j]);
                        assert(!date_le(before[b as int].date, before[j].date));
                    }
                    assert(kept_before[b as int]);
                    assert(kept_after[b as int]);
                } else {
                    assert forall|j: int| 0 <= j < kept_after.len() implies !#[trigger] kept_after[j] by {
                        if j < k {
                            assert(!kept_before[j]);
                        }
                    }
                }
            }
        }
        proof {
            if best is Some {
                assert(kept_after[best->0 as int]);
            }
        }
        k += 1;
    }
    assert(entries_view(entries@).take(k as int) == entries_view(entries@));
    assert(keep@.take(k as int) == keep@);
    best
}

/// Where an entry is kept, one of the kept entries is the first with the
/// latest date.
pub proof fn lemma_first_newest_exists(entries: Seq<DirEntryView>, keep: Seq<bool>)
    requires
        keep.len() == entries.len(),
        !none_kept(keep),
    ensures
        exists|i: int| is_first_newest(entries, keep, i),
    decreases entries.len(),
{
    let n = entries.len() - 1;
    assert(entries.len() > 0);
    let shorter = entries.drop_last();
    let kept = keep.drop_last();
    if none_kept(kept) {
        assert(keep[n]) by {
            if !keep[n] {
                assert forall|j: int| 0 <= j < keep.len() implies !#[trigger] keep[j] by {
                    if j < n {
                        assert(!kept[j]);
                    }
                }
            }
        }
        assert forall|j: int| 0 <= j < n implies !keep[j] by {
            assert(!kept[j]);
        }
        assert(is_first_newest(entries, keep, n));
    } else {
        lemma_first_newest_exists(shorter, kept);
        let b = choose|b: int| is_first_newest(shorter, kept, b);
        if keep[n] && !date_le(entries[n].date, entries[b].date) {
            assert forall|j: int| 0 <= j < entries.len() && keep[j] implies date_le(
                #[trigger] entries[j].date,
                entries[n].date,
            ) by {
                if j < n {
                    assert(kept[j]);
                    assert(date_le(shorter[j].date, shorter[b].date));
                    lemma_date_le_chain(entries[j].date, entries[b].date, entries[n].date);
                }
            }
            assert forall|j: int| 0 <= j < n && keep[j] implies !date_le(
                entries[n].date,
                #[trigger] entries[j].date,
            ) by {
                assert(kept[j]);
                assert(date_le(shorter[j].date, shorter[b].date));
                lemma_date_le_chain(entries[j].date, entries[b].date, entries[n].date);
            }
            assert(is_first_newest(entries, keep, n));
        } else {
            assert(kept[b]);
            assert forall|j: int| 0 <= j < entries.len() && keep[j] implies date_le(
                #[trigger] entries[j].date,
                entries[b].date,
            ) by {
                if j < n {
                    assert(kept[j]);
                    assert(date_le(shorter[j].date, shorter[b].date));
                }
            }
            assert forall|j: int| 0 <= j < b && keep[j] implies !date_le(
                entries[b].date,
                #[trigger] entries[j].date,
            ) by {
                assert(kept[j]);
                assert(!date_le(shorter[b].date, shorter[j].date));
            }
            assert(is_first_newest(entries, keep, b));
        }
    }
}

/// Where an entry is kept, one of the kept entries is the first with the
/// greatest name.
pub proof fn lemma_first_greatest_name_exists(entries: Seq<DirEntryView>, keep: Seq<bool>)
    requires
        keep.len() == entries.len(),
        !none_kept(keep),
    ensures
        exists|i: int| is_first_greatest_name(entries, keep, i),
    decreases entries.len(),
{
    let n = entries.len() - 1;
    assert(entries.len() > 0);
    let shorter = entries.drop_last();
    let kept = keep.drop_last();
    lemma_lex_le_total(entries[n].name, entries[n].name);
    if none_kept(kept) {
        assert(keep[n]) by {
            if !keep[n] {
                assert forall|j: int| 0 <= j < keep.len() implies !#[trigger] keep[j] by {
                    if j < n {
                        assert(!kept[j]);
                    }
                }
            }
        }
        assert forall|j: int| 0 <= j < n implies !keep[j] by {
            assert(!kept[j]);
        }
        assert(is_first_greatest_name(entries, keep, n));
    } else {
        lemma_first_greatest_name_exists(shorter, kept);
        let b = choose|b: int| is_first_greatest_name(shorter, kept, b);
        lemma_lex_le_total(entries[n].name, entries[b].name);
        if keep[n] && !lex_le(entries[n].name, entries[b].name) {
            assert forall|j: int| 0 <= j < entries.len() && keep[j] implies lex_le(
                #[trigger] entries[j].name,
                entries[n].name,
            ) by {
                if j < n {
                    assert(kept[j]);
                    assert(lex_le(shorter[j].name, shorter[b].name));
                    lemma_lex_le_transitive(entries[j].name, entries[b].name, entries[n].name);
                }
            }
            assert forall|j: int| 0 <= j < n && keep[j] implies !lex_le(
                entries[n].name,
                #[trigger] entries[j].name,
            ) by {
                assert(kept[j]);
                assert(lex_le(shorter[j].name, shorter[b].name));
                if lex_le(entries[n].name, entries[j].name) {
                    lemma_lex_le_transitive(entries[n].name, entries[j].name, entries[b].name);
                }
            }
            assert(is_first_greatest_name(entries, keep, n));
        } else {
            assert(kept[b]);
            assert forall|j: int| 0 <= j < entries.len() && keep[j] implies lex_le(
                #[trigger] entries[j].name,
                entries[b].name,
            ) by {
                if j < n {
                    assert(kept[j]);
                    assert(lex_le(shorter[j].name, shorter[b].name));
                }
            }
            assert forall|j: int| 0 <= j < b && keep[j] implies !lex_le(
                entries[b].name,
                #[trigger] entries[j].name,
            ) by {
                assert(kept[j]);
                assert(!lex_le(shorter[b].name, shorter[j].name));
            }
            assert(is_first_greatest_name(entries, keep, b));
        }
    }
}

} // verus!
