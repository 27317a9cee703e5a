//! What holds of the spellings of the lock modes: no text spells two
//! modes, every spelling is read as its mode, and reading goes by the folded
//! form of a text alone.

use vstd::prelude::*;

use crate::lock::folded;
use crate::lock::lemma_first_mode_found;
use crate::lock::literal_mode;
use crate::lock::lock_suffix;
use crate::lock::lowercase;
use crate::lock::parsed;
use crate::lock::without_spaces;
use crate::lock::Lock;

verus! {

broadcast use vstd::string::group_string_axioms;

/// No text is a literal spelling of two modes: the twenty-four spellings
/// differ in their length, their second or their seventh character.
pub proof fn lemma_spellings_distinct(a: Lock, b: Lock, text: Seq<char>)
    requires
        a.spelled_by(text),
        b.spelled_by(text),
    ensures
        a == b,
{
    reveal_strlit("AccessShareLock");
    assert("AccessShareLock"@.len() == 15 && "AccessShareLock"@[1] == 'c' && "AccessShareLock"@[6] == 'S');
    reveal_strlit("RowShareLock");
    assert("RowShareLock"@.len() == 12 && "RowShareLock"@[1] == 'o' && "RowShareLock"@[6] == 'r');
    reveal_strlit("RowExclusiveLock");
    assert("RowExclusiveLock"@.len() == 16 && "RowExclusiveLock"@[1] == 'o' && "RowExclusiveLock"@[6] == 'l');
    reveal_strlit("ShareUpdateExclusiveLock");
    assert("ShareUpdateExclusiveLock"@.len() == 24 && "ShareUpdateExclusiveLock"@[1] == 'h' && "ShareUpdateExclusiveLock"@[6] == 'p');
    reveal_strlit("ShareLock");
    assert("ShareLock"@.len() == 9 && "ShareLock"@[1] == 'h' && "ShareLock"@[6] == 'o');
    reveal_strlit("ShareRowExclusiveLock");
    assert("ShareRowExclusiveLock"@.len() == 21 && "ShareRowExclusiveLock"@[1] == 'h' && "ShareRowExclusiveLock"@[6] == 'o');
    reveal_strlit("ExclusiveLock");
    assert("ExclusiveLock"@.len() == 13 && "ExclusiveLock"@[1] == 'x' && "ExclusiveLock"@[6] == 'i');
    reveal_strlit("AccessExclusiveLock");
    assert("AccessExclusiveLock"@.len() == 19 && "AccessExclusiveLock"@[1] == 'c' && "AccessExclusiveLock"@[6] == 'E');
    reveal_strlit("AccessShare");
    assert("AccessShare"@.len() == 11 && "AccessShare"@[1] == 'c' && "AccessShare"@[6] == 'S');
    reveal_strlit("RowShare");
    assert("RowShare"@.len() == 8 && "RowShare"@[1] == 'o' && "RowShare"@[6] == 'r');
    reveal_strlit("RowExclusive");
    assert("RowExclusive"@.len() == 12 && "RowExclusive"@[1] == 'o' && "RowExclusive"@[6] == 'l');
    reveal_strlit("ShareUpdateExclusive");
    assert("ShareUpdateExclusive"@.len() == 20 && "ShareUpdateExclusive"@[1] == 'h' && "ShareUpdateExclusive"@[6] == 'p');
    reveal_strlit("Share");
    assert("Share"@.len() == 5 && "Share"@[1] == 'h');
    reveal_strlit("ShareRowExclusive");
    assert("ShareRowExclusive"@.len() == 17 && "ShareRowExclusive"@[1] == 'h' && "ShareRowExclusive"@[6] == 'o');
    reveal_strlit("Exclusive");
    assert("Exclusive"@.len() == 9 && "Exclusive"@[1] == 'x' && "Exclusive"@[6] == 'i');
    reveal_strlit("AccessExclusive");
    assert("AccessExclusive"@.len() == 15 && "AccessExclusive"@[1] == 'c' && "AccessExclusive"@[6] == 'E');
    reveal_strlit("ACCESS SHARE");
    assert("ACCESS SHARE"@.len() == 12 && "ACCESS SHARE"@[1] == 'C' && "ACCESS SHARE"@[6] == ' ');
    reveal_strlit("ROW SHARE");
    assert("ROW SHARE"@.len() == 9 && "ROW SHARE"@[1] == 'O' && "ROW SHARE"@[6] == 'A');
    reveal_strlit("ROW EXCLUSIVE");
    assert("ROW EXCLUSIVE"@.len() == 13 && "ROW EXCLUSIVE"@[1] == 'O' && "ROW EXCLUSIVE"@[6] == 'C');
    reveal_strlit("SHARE UPDATE EXCLUSIVE");
    assert("SHARE UPDATE EXCLUSIVE"@.len() == 22 && "SHARE UPDATE EXCLUSIVE"@[1] == 'H' && "SHARE UPDATE EXCLUSIVE"@[6] == 'U');
    reveal_strlit("SHARE");
    assert("SHARE"@.len() == 5 && "SHARE"@[1] == 'H');
    reveal_strlit("SHARE ROW EXCLUSIVE");
    assert("SHARE ROW EXCLUSIVE"@.len() == 19 && "SHARE ROW EXCLUSIVE"@[1] == 'H' && "SHARE ROW EXCLUSIVE"@[6] == 'R');
    reveal_strlit("EXCLUSIVE");
    assert("EXCLUSIVE"@.len() == 9 && "EXCLUSIVE"@[1] == 'X' && "EXCLUSIVE"@[6] == 'I');
    reveal_strlit("ACCESS EXCLUSIVE");
    assert("ACCESS EXCLUSIVE"@.len() == 16 && "ACCESS EXCLUSIVE"@[1] == 'C' && "ACCESS EXCLUSIVE"@[6] == ' ');
}

/// Each of the three literal spellings of a mode parses to that mode. For
/// the canonical name this is the round trip: the name that `to_string`
/// gives is read back by `from_str` as the mode it came from.
pub proof fn lemma_spellings_parse(mode: Lock)
    ensures
        parsed(mode.canonical()) == Some(mode),
        parsed(mode.short()) == Some(mode),
        parsed(mode.keywords()) == Some(mode),
{
    assert forall|text: Seq<char>| mode.spelled_by(text) implies literal_mode(text) == Some(
        mode,
    ) by {
        let pred = |m: Lock| m.spelled_by(text);
        assert forall|m: Lock| m.rank() < mode.rank() implies !pred(m) by {
            if m.spelled_by(text) {
                lemma_spellings_distinct(m, mode, text);
            }
        }
        assert(pred(mode));
        lemma_first_mode_found(pred, mode);
    }
    assert(mode.spelled_by(mode.canonical()));
    assert(mode.spelled_by(mode.short()));
    assert(mode.spelled_by(mode.keywords()));
}

/// A text without any space is kept whole when spaces are removed.
proof fn lemma_no_spaces(text: Seq<char>)
    requires
        forall|i: int| 0 <= i < text.len() ==> text[i] != ' ',
    ensures
        without_spaces(text) == text,
    decreases text.len(),
{
    reveal(Seq::filter);
    if text.len() > 0 {
        lemma_no_spaces(text.drop_last());
        assert(text.drop_last().push(text.last()) =~= text);
    }
}

/// Removing the spaces of two words joined by one space joins the words.
proof fn lemma_join_words(first: Seq<char>, second: Seq<char>)
    requires
        forall|i: int| 0 <= i < second.len() ==> second[i] != ' ',
    ensures
        without_spaces(first + seq![' '] + second) == without_spaces(first) + second,
{
    let keep = |c: char| c != ' ';
    Seq::filter_distributes_over_add(first, seq![' '], keep);
    Seq::filter_distributes_over_add(first + seq![' '], second, keep);
    lemma_no_spaces(second);
    assert(without_spaces(seq![' ']) =~= Seq::<char>::empty()) by {
        reveal_with_fuel(Seq::filter, 2);
        assert(seq![' '].drop_last() =~= Seq::<char>::empty());
    }
    assert(without_spaces(first) + Seq::<char>::empty() + second =~= without_spaces(first)
        + second);
}

/// The folded forms of the three spellings of one mode, from what their
/// lower-case forms are: `name` for the canonical name, which is `stem` and
/// `lock`; `stem` for the name without suffix; and `spaced`, which is `stem`
/// with spaces between its words, for the keywords.
proof fn lemma_fold_of_spellings(
    canonical: Seq<char>,
    short: Seq<char>,
    keywords: Seq<char>,
    name: Seq<char>,
    stem: Seq<char>,
    spaced: Seq<char>,
)
    requires
        lowercase(canonical) == name,
        lowercase(short) == stem,
        lowercase(keywords) == spaced,
        name.len() == stem.len() + 4,
        forall|i: int| 0 <= i < stem.len() ==> name[i] == stem[i],
        name[stem.len() as int] == 'l',
        name[stem.len() as int + 1] == 'o',
        name[stem.len() as int + 2] == 'c',
        name[stem.len() as int + 3] == 'k',
        stem.len() > 0,
        stem.last() == 'e',
        forall|i: int| 0 <= i < stem.len() ==> stem[i] != ' ',
        without_spaces(spaced) == stem,
    ensures
        folded(canonical) == name,
        folded(short) == name,
        folded(keywords) == name,
{
    let suffix = lock_suffix();
    assert(suffix.len() == 4 && suffix[0] == 'l' && suffix[1] == 'o' && suffix[2] == 'c'
        && suffix[3] == 'k');
    assert(name =~= stem + suffix);
    lemma_no_spaces(stem);
    lemma_no_spaces(name);
    assert(name.subrange(name.len() - 4, name.len() as int) =~= suffix);
    if suffix.is_suffix_of(stem) {
        let tail = stem.subrange(stem.len() - 4, stem.len() as int);
        assert(tail[3] == stem.last());
    }
}

/// The folded forms of the three spellings of `AccessShareLock`.
proof fn lemma_fold_access_share_lock()
    ensures
        folded("AccessShareLock"@) == lowercase("AccessShareLock"@),
        folded("AccessShare"@) == lowercase("AccessShareLock"@),
        folded("ACCESS SHARE"@) == lowercase("AccessShareLock"@),
{
    let name = "accesssharelock"@;
    let stem = "accessshare"@;
    let spaced = "access share"@;
    assert(lowercase("AccessShareLock"@) =~= name) by {
        reveal_strlit("AccessShareLock");
        reveal_strlit("accesssharelock");
    }
    assert(lowercase("AccessShare"@) =~= stem) by {
        reveal_strlit("AccessShare");
        reveal_strlit("accessshare");
    }
    assert(lowercase("ACCESS SHARE"@) =~= spaced) by {
        reveal_strlit("ACCESS SHARE");
        reveal_strlit("access share");
    }
    assert(name.len() == stem.len() + 4 && stem.len() == 11 && stem[10] == 'e' && name[11] == 'l'
        && name[12] == 'o' && name[13] == 'c' && name[14] == 'k') by {
        reveal_strlit("accesssharelock");
        reveal_strlit("accessshare");
    }
    assert forall|i: int| 0 <= i < stem.len() implies name[i] == stem[i] && stem[i] != ' ' by {
        reveal_strlit("accesssharelock");
        reveal_strlit("accessshare");
    }
    assert forall|i: int| 0 <= i < "share"@.len() implies "share"@[i] != ' ' by {
        reveal_strlit("share");
    }
    assert forall|i: int| 0 <= i < "access"@.len() implies "access"@[i] != ' ' by {
        reveal_strlit("access");
    }
    lemma_no_spaces("access"@);
    lemma_join_words("access"@, "share"@);
    assert(spaced =~= "access"@ + seq![' '] + "share"@) by {
        reveal_strlit("access share");
        reveal_strlit("access");
        reveal_strlit("share");
    }
    assert(stem =~= "access"@ + "share"@) by {
        reveal_strlit("accessshare");
        reveal_strlit("access");
        reveal_strlit("share");
    }
    lemma_fold_of_spellings("AccessShareLock"@, "AccessShare"@, "ACCESS SHARE"@, name, stem, spaced);
}

/// The folded forms of the three spellings of `RowShareLock`.
proof fn lemma_fold_row_share_lock()
    ensures
        folded("RowShareLock"@) == lowercase("RowShareLock"@),
        folded("RowShare"@) == lowercase("RowShareLock"@),
        folded("ROW SHARE"@) == lowercase("RowShareLock"@),
{
    let name = "rowsharelock"@;
    let stem = "rowshare"@;
    let spaced = "row share"@;
    assert(lowercase("RowShareLock"@) =~= name) by {
        reveal_strlit("RowShareLock");
        reveal_strlit("rowsharelock");
    }
    assert(lowercase("RowShare"@) =~= stem) by {
        reveal_strlit("RowShare");
        reveal_strlit("rowshare");
    }
    assert(lowercase("ROW SHARE"@) =~= spaced) by {
        reveal_strlit("ROW SHARE");
        reveal_strlit("row share");
    }
    assert(name.len() == stem.len() + 4 && stem.len() == 8 && stem[7] == 'e' && name[8] == 'l'
        && name[9] == 'o' && name[10] == 'c' && name[11] == 'k') by {
        reveal_strlit("rowsharelock");
        reveal_strlit("rowshare");
    }
    assert forall|i: int| 0 <= i < stem.len() implies name[i] == stem[i] && stem[i] != ' ' by {
        reveal_strlit("rowsharelock");
        reveal_strlit("rowshare");
    }
    assert forall|i: int| 0 <= i < "share"@.len() implies "share"@[i] != ' ' by {
        reveal_strlit("share");
    }
    assert forall|i: int| 0 <= i < "row"@.len() implies "row"@[i] != ' ' by {
        reveal_strlit("row");
    }
    lemma_no_spaces("row"@);
    lemma_join_words("row"@, "share"@);
    assert(spaced =~= "row"@ + seq![' '] + "share"@) by {
        reveal_strlit("row share");
        reveal_strlit("row");
        reveal_strlit("share");
    }
    assert(stem =~= "row"@ + "share"@) by {
        reveal_strlit("rowshare");
        reveal_strlit("row");
        reveal_strlit("share");
    }
    lemma_fold_of_spellings("RowShareLock"@, "RowShare"@, "ROW SHARE"@, name, stem, spaced);
}

/// The folded forms of the three spellings of `RowExclusiveLock`.
proof fn lemma_fold_row_exclusive_lock()
    ensures
        folded("RowExclusiveLock"@) == lowercase("RowExclusiveLock"@),
        folded("RowExclusive"@) == lowercase("RowExclusiveLock"@),
        folded("ROW EXCLUSIVE"@) == lowercase("RowExclusiveLock"@),
{
    let name = "rowexclusivelock"@;
    let stem = "rowexclusive"@;
    let spaced = "row exclusive"@;
    assert(lowercase("RowExclusiveLock"@) =~= name) by {
        reveal_strlit("RowExclusiveLock");
        reveal_strlit("rowexclusivelock");
    }
    assert(lowercase("RowExclusive"@) =~= stem) by {
        reveal_strlit("RowExclusive");
        reveal_strlit("rowexclusive");
    }
    assert(lowercase("ROW EXCLUSIVE"@) =~= spaced) by {
        reveal_strlit("ROW EXCLUSIVE");
        reveal_strlit("row exclusive");
    }
    assert(name.len() == stem.len() + 4 && stem.len() == 12 && stem[11] == 'e' && name[12] == 'l'
        && name[13] == 'o' && name[14] == 'c' && name[15] == 'k') by {
        reveal_strlit("rowexclusivelock");
        reveal_strlit("rowexclusive");
    }
    assert forall|i: int| 0 <= i < stem.len() implies name[i] == stem[i] && stem[i] != ' ' by {
        reveal_strlit("rowexclusivelock");
        reveal_strlit("rowexclusive");
    }
    assert forall|i: int| 0 <= i < "exclusive"@.len() implies "exclusive"@[i] != ' ' by {
        reveal_strlit("exclusive");
    }
    assert forall|i: int| 0 <= i < "row"@.len() implies "row"@[i] != ' ' by {
        reveal_strlit("row");
    }
    lemma_no_spaces("row"@);
    lemma_join_words("row"@, "exclusive"@);
    assert(spaced =~= "row"@ + seq![' '] + "exclusive"@) by {
        reveal_strlit("row exclusive");
        reveal_strlit("row");
        reveal_strlit("exclusive");
    }
    assert(stem =~= "row"@ + "exclusive"@) by {
        reveal_strlit("rowexclusive");
        reveal_strlit("row");
        reveal_strlit("exclusive");
    }
    lemma_fold_of_spellings("RowExclusiveLock"@, "RowExclusive"@, "ROW EXCLUSIVE"@, name, stem, spaced);
}

/// The folded forms of the three spellings of `ShareUpdateExclusiveLock`.
proof fn lemma_fold_share_update_exclusive_lock()
    ensures
        folded("ShareUpdateExclusiveLock"@) == lowercase("ShareUpdateExclusiveLock"@),
        folded("ShareUpdateExclusive"@) == lowercase("ShareUpdateExclusiveLock"@),
        folded("SHARE UPDATE EXCLUSIVE"@) == lowercase("ShareUpdateExclusiveLock"@),
{
    let name = "shareupdateexclusivelock"@;
    let stem = "shareupdateexclusive"@;
    let spaced = "share update exclusive"@;
    assert(lowercase("ShareUpdateExclusiveLock"@) =~= name) by {
        reveal_strlit("ShareUpdateExclusiveLock");
        reveal_strlit("shareupdateexclusivelock");
    }
    assert(lowercase("ShareUpdateExclusive"@) =~= stem) by {
        reveal_strlit("ShareUpdateExclusive");
        reveal_strlit("shareupdateexclusive");
    }
    assert(lowercase("SHARE UPDATE EXCLUSIVE"@) =~= spaced) by {
        reveal_strlit("SHARE UPDATE EXCLUSIVE");
        reveal_strlit("share update exclusive");
    }
    assert(name.len() == stem.len() + 4 && stem.len() == 20 && stem[19] == 'e' && name[20] == 'l'
        && name[21] == 'o' && name[22] == 'c' && name[23] == 'k') by {
        reveal_strlit("shareupdateexclusivelock");
        reveal_strlit("shareupdateexclusive");
    }
    assert forall|i: int| 0 <= i < stem.len() implies name[i] == stem[i] && stem[i] != ' ' by {
        reveal_strlit("shareupdateexclusivelock");
        reveal_strlit("shareupdateexclusive");
    }
    assert forall|i: int| 0 <= i < "update"@.len() implies "update"@[i] != ' ' by {
        reveal_strlit("update");
    }
    assert forall|i: int| 0 <= i < "exclusive"@.len() implies "exclusive"@[i] != ' ' by {
        reveal_strlit("exclusive");
    }
    assert forall|i: int| 0 <= i < "share"@.len() implies "share"@[i] != ' ' by {
        reveal_strlit("share");
    }
    lemma_no_spaces("share"@);
    lemma_join_words("share"@, "update"@);
    lemma_join_words("share"@ + seq![' '] + "update"@, "exclusive"@);
    assert(spaced =~= "share"@ + seq![' '] + "update"@ + seq![' '] + "exclusive"@) by {
        reveal_strlit("share update exclusive");
        reveal_strlit("share");
        reveal_strlit("update");
        reveal_strlit("exclusive");
    }
    assert(stem =~= "share"@ + "update"@ + "exclusive"@) by {
        reveal_strlit("shareupdateexclusive");
        reveal_strlit("share");
        reveal_strlit("update");
        reveal_strlit("exclusive");
    }
    lemma_fold_of_spellings("ShareUpdateExclusiveLock"@, "ShareUpdateExclusive"@, "SHARE UPDATE EXCLUSIVE"@, name, stem, spaced);
}

/// The folded forms of the three spellings of `ShareLock`.
proof fn lemma_fold_share_lock()
    ensures
        folded("ShareLock"@) == lowercase("ShareLock"@),
        folded("Share"@) == lowercase("ShareLock"@),
        folded("SHARE"@) == lowercase("ShareLock"@),
{
    let name = "sharelock"@;
    let stem = "share"@;
    let spaced = "share"@;
    assert(lowercase("ShareLock"@) =~= name) by {
        reveal_strlit("ShareLock");
        reveal_strlit("sharelock");
    }
    assert(lowercase("Share"@) =~= stem) by {
        reveal_strlit("Share");
        reveal_strlit("share");
    }
    assert(lowercase("SHARE"@) =~= spaced) by {
        reveal_strlit("SHARE");
        reveal_strlit("share");
    }
    assert(name.len() == stem.len() + 4 && stem.len() == 5 && stem[4] == 'e' && name[5] == 'l'
        && name[6] == 'o' && name[7] == 'c' && name[8] == 'k') by {
        reveal_strlit("sharelock");
        reveal_strlit("share");
    }
    assert forall|i: int| 0 <= i < stem.len() implies name[i] == stem[i] && stem[i] != ' ' by {
        reveal_strlit("sharelock");
        reveal_strlit("share");
    }
    lemma_no_spaces(stem);
    lemma_fold_of_spellings("ShareLock"@, "Share"@, "SHARE"@, name, stem, spaced);
}

/// The folded forms of the three spellings of `ShareRowExclusiveLock`.
proof fn lemma_fold_share_row_exclusive_lock()
    ensures
        folded("ShareRowExclusiveLock"@) == lowercase("ShareRowExclusiveLock"@),
        folded("ShareRowExclusive"@) == lowercase("ShareRowExclusiveLock"@),
        folded("SHARE ROW EXCLUSIVE"@) == lowercase("ShareRowExclusiveLock"@),
{
    let name = "sharerowexclusivelock"@;
    let stem = "sharerowexclusive"@;
    let spaced = "share row exclusive"@;
    assert(lowercase("ShareRowExclusiveLock"@) =~= name) by {
        reveal_strlit("ShareRowExclusiveLock");
        reveal_strlit("sharerowexclusivelock");
    }
    assert(lowercase("ShareRowExclusive"@) =~= stem) by {
        reveal_strlit("ShareRowExclusive");
        reveal_strlit("sharerowexclusive");
    }
    assert(lowercase("SHARE ROW EXCLUSIVE"@) =~= spaced) by {
        reveal_strlit("SHARE ROW EXCLUSIVE");
        reveal_strlit("share row exclusive");
    }
    assert(name.len() == stem.len() + 4 && stem.len() == 17 && stem[16] == 'e' && name[17] == 'l'
        && name[18] == 'o' && name[19] == 'c' && name[20] == 'k') by {
        reveal_strlit("sharerowexclusivelock");
        reveal_strlit("sharerowexclusive");
    }
    assert forall|i: int| 0 <= i < stem.len() implies name[i] == stem[i] && stem[i] != ' ' by {
        reveal_strlit("sharerowexclusivelock");
        reveal_strlit("sharerowexclusive");
    }
    assert forall|i: int| 0 <= i < "row"@.len() implies "row"@[i] != ' ' by {
        reveal_strlit("row");
    }
    assert forall|i: int| 0 <= i < "exclusive"@.len() implies "exclusive"@[i] != ' ' by {
        reveal_strlit("exclusive");
    }
    assert forall|i: int| 0 <= i < "share"@.len() implies "share"@[i] != ' ' by {
        reveal_strlit("share");
    }
    lemma_no_spaces("share"@);
    lemma_join_words("share"@, "row"@);
    lemma_join_words("share"@ + seq![' '] + "row"@, "exclusive"@);
    assert(spaced =~= "share"@ + seq![' '] + "row"@ + seq![' '] + "exclusive"@) by {
        reveal_strlit("share row exclusive");
        reveal_strlit("share");
        reveal_strlit("row");
        reveal_strlit("exclusive");
    }
    assert(stem =~= "share"@ + "row"@ + "exclusive"@) by {
        reveal_strlit("sharerowexclusive");
        reveal_strlit("share");
        reveal_strlit("row");
        reveal_strlit("exclusive");
    }
    lemma_fold_of_spellings("ShareRowExclusiveLock"@, "ShareRowExclusive"@, "SHARE ROW EXCLUSIVE"@, name, stem, spaced);
}

/// The folded forms of the three spellings of `ExclusiveLock`.
proof fn lemma_fold_exclusive_lock()
    ensures
        folded("ExclusiveLock"@) == lowercase("ExclusiveLock"@),
        folded("Exclusive"@) == lowercase("ExclusiveLock"@),
        folded("EXCLUSIVE"@) == lowercase("ExclusiveLock"@),
{
    let name = "exclusivelock"@;
    let stem = "exclusive"@;
    let spaced = "exclusive"@;
    assert(lowercase("ExclusiveLock"@) =~= name) by {
        reveal_strlit("ExclusiveLock");
        reveal_strlit("exclusivelock");
    }
    assert(lowercase("Exclusive"@) =~= stem) by {
        reveal_strlit("Exclusive");
        reveal_strlit("exclusive");
    }
    assert(lowercase("EXCLUSIVE"@) =~= spaced) by {
        reveal_strlit("EXCLUSIVE");
        reveal_strlit("exclusive");
    }
    assert(name.len() == stem.len() + 4 && stem.len() == 9 && stem[8] == 'e' && name[9] == 'l'
        && name[10] == 'o' && name[11] == 'c' && name[12] == 'k') by {
        reveal_strlit("exclusivelock");
        reveal_strlit("exclusive");
    }
    assert forall|i: int| 0 <= i < stem.len() implies name[i] == stem[i] && stem[i] != ' ' by {
        reveal_strlit("exclusivelock");
        reveal_strlit("exclusive");
    }
    lemma_no_spaces(stem);
    lemma_fold_of_spellings("ExclusiveLock"@, "Exclusive"@, "EXCLUSIVE"@, name, stem, spaced);
}

/// The folded forms of the three spellings of `AccessExclusiveLock`.
proof fn lemma_fold_access_exclusive_lock()
    ensures
        folded("AccessExclusiveLock"@) == lowercase("AccessExclusiveLock"@),
        folded("AccessExclusive"@) == lowercase("AccessExclusiveLock"@),
        folded("ACCESS EXCLUSIVE"@) == lowercase("AccessExclusiveLock"@),
{
    let name = "accessexclusivelock"@;
    let stem = "accessexclusive"@;
    let spaced = "access exclusive"@;
    assert(lowercase("AccessExclusiveLock"@) =~= name) by {
        reveal_strlit("AccessExclusiveLock");
        reveal_strlit("accessexclusivelock");
    }
    assert(lowercase("AccessExclusive"@) =~= stem) by {
        reveal_strlit("AccessExclusive");
        reveal_strlit("accessexclusive");
    }
    assert(lowercase("ACCESS EXCLUSIVE"@) =~= spaced) by {
        reveal_strlit("ACCESS EXCLUSIVE");
        reveal_strlit("access exclusive");
    }
    assert(name.len() == stem.len() + 4 && stem.len() == 15 && stem[14] == 'e' && name[15] == 'l'
        && name[16] == 'o' && name[17] == 'c' && name[18] == 'k') by {
        reveal_strlit("accessexclusivelock");
        reveal_strlit("accessexclusive");
    }
    assert forall|i: int| 0 <= i < stem.len() implies name[i] == stem[i] && stem[i] != ' ' by {
        reveal_strlit("accessexclusivelock");
        reveal_strlit("accessexclusive");
    }
    assert forall|i: int| 0 <= i < "exclusive"@.len() implies "exclusive"@[i] != ' ' by {
        reveal_strlit("exclusive");
    }
    assert forall|i: int| 0 <= i < "access"@.len() implies "access"@[i] != ' ' by {
        reveal_strlit("access");
    }
    lemma_no_spaces("access"@);
    lemma_join_words("access"@, "exclusive"@);
    assert(spaced =~= "access"@ + seq![' '] + "exclusive"@) by {
        reveal_strlit("access exclusive");
        reveal_strlit("access");
        reveal_strlit("exclusive");
    }
    assert(stem =~= "access"@ + "exclusive"@) by {
        reveal_strlit("accessexclusive");
        reveal_strlit("access");
        reveal_strlit("exclusive");
    }
    lemma_fold_of_spellings("AccessExclusiveLock"@, "AccessExclusive"@, "ACCESS EXCLUSIVE"@, name, stem, spaced);
}

/// Each literal spelling of a mode has the folded form that the mode's
/// canonical name has: the canonical name in lower case.
pub proof fn lemma_spellings_fold(mode: Lock)
    ensures
        folded(mode.canonical()) == mode.folded_name(),
        folded(mode.short()) == mode.folded_name(),
        folded(mode.keywords()) == mode.folded_name(),
{
    match mode {
        Lock::AccessShareLock => {
            lemma_fold_access_share_lock();
        },
        Lock::RowShareLock => {
            lemma_fold_row_share_lock();
        },
        Lock::RowExclusiveLock => {
            lemma_fold_row_exclusive_lock();
        },
        Lock::ShareUpdateExclusiveLock => {
            lemma_fold_share_update_exclusive_lock();
        },
        Lock::ShareLock => {
            lemma_fold_share_lock();
        },
        Lock::ShareRowExclusiveLock => {
            lemma_fold_share_row_exclusive_lock();
        },
        Lock::ExclusiveLock => {
            lemma_fold_exclusive_lock();
        },
        Lock::AccessExclusiveLock => {
            lemma_fold_access_exclusive_lock();
        },
    }
}

/// No two modes have the same canonical name in lower case.
pub proof fn lemma_folded_names_distinct(a: Lock, b: Lock)
    requires
        a.folded_name() == b.folded_name(),
    ensures
        a == b,
{
    reveal_strlit("AccessShareLock");
    reveal_strlit("RowShareLock");
    reveal_strlit("RowExclusiveLock");
    reveal_strlit("ShareUpdateExclusiveLock");
    reveal_strlit("ShareLock");
    reveal_strlit("ShareRowExclusiveLock");
    reveal_strlit("ExclusiveLock");
    reveal_strlit("AccessExclusiveLock");
    assert(a.folded_name().len() == a.canonical().len());
    assert(b.folded_name().len() == b.canonical().len());
    assert("AccessShareLock"@.len() == 15);
    assert("RowShareLock"@.len() == 12);
    assert("RowExclusiveLock"@.len() == 16);
    assert("ShareUpdateExclusiveLock"@.len() == 24);
    assert("ShareLock"@.len() == 9);
    assert("ShareRowExclusiveLock"@.len() == 21);
    assert("ExclusiveLock"@.len() == 13);
    assert("AccessExclusiveLock"@.len() == 19);
}

/// A text names a mode exactly when its folded form is the mode's
/// canonical name in lower case: case, spaces and a missing `Lock` at the
/// end do not matter, and nothing else is overlooked.
pub proof fn lemma_parse_by_fold(text: Seq<char>, mode: Lock)
    ensures
        parsed(text) == Some(mode) <==> folded(text) == mode.folded_name(),
{
    let spells = |m: Lock| m.spelled_by(text);
    let folds = |m: Lock| m.folded_name() == folded(text);
    assert forall|m: Lock| #[trigger] m.spelled_by(text) implies folded(text) == m.folded_name() by {
        lemma_spellings_fold(m);
    }
    assert forall|m: Lock|
        m != mode && mode.folded_name() == folded(text) implies #[trigger] m.folded_name()
        != folded(text) by {
        if m.folded_name() == folded(text) {
            lemma_folded_names_distinct(m, mode);
        }
    }
    if folded(text) == mode.folded_name() {
        match literal_mode(text) {
            Some(other) => {
                assert(spells(other));
                lemma_folded_names_distinct(other, mode);
            },
            None => {
                assert(folds(mode));
                assert forall|m: Lock| #[trigger] m.rank() < mode.rank() implies !folds(m) by {
                    assert(m != mode);
                    assert(m.folded_name() != folded(text));
                }
                lemma_first_mode_found(folds, mode);
            },
        }
    } else if parsed(text) == Some(mode) {
        match literal_mode(text) {
            Some(other) => {
                assert(spells(mode));
            },
            None => {
                assert(folds(mode));
            },
        }
    }
}

} // verus!
