//! The eight relation lock modes, their names, and the parsing of a mode
//! from text.
//!
//! A mode has three literal spellings: its canonical name (`AccessShareLock`),
//! the same without the suffix (`AccessShare`), and the SQL keywords
//! (`ACCESS SHARE`). A text that is none of these is folded (lower-cased,
//! spaces removed, `lock` appended unless it ends so already) and held
//! against the folded canonical names. A text that still matches nothing is
//! an error: there is no mode that stands for "unknown".

use vstd::prelude::*;
use vstd::string::StrSliceExecFns;

use crate::text::text_eq;
use crate::text::chars_of;

verus! {

broadcast use vstd::string::group_string_axioms;

/// The eight strengths of a relation-level lock, weakest first.
#[derive(Copy, Clone, Debug, PartialEq, Eq, Hash, Structural)]
pub enum Lock {
    AccessShareLock,
    RowShareLock,
    RowExclusiveLock,
    ShareUpdateExclusiveLock,
    ShareLock,
    ShareRowExclusiveLock,
    ExclusiveLock,
    AccessExclusiveLock,
}

/// A text that names no lock mode.
#[derive(Clone, Debug, PartialEq, Eq)]
pub struct InvalidLock {
    /// The text as it was given.
    pub text: String,
}

/// The object identifier of the database's `text` type.
pub const TEXT_OID: u32 = 25;

/// The object identifier of the database's `varchar` type.
pub const VARCHAR_OID: u32 = 1043;

/// The lower-case form of an ASCII capital; any other character is kept.
pub open spec fn lower(c: char) -> char {
    if 'A' <= c && c <= 'Z' {
        ((c as u8 + 32) as u8) as char
    } else {
        c
    }
}

/// A text with each ASCII capital replaced by its lower-case form.
pub open spec fn lowercase(text: Seq<char>) -> Seq<char> {
    text.map_values(|c: char| lower(c))
}

/// A text without its space characters.
pub open spec fn without_spaces(text: Seq<char>) -> Seq<char> {
    text.filter(|c: char| c != ' ')
}

/// The suffix that a folded name ends with.
pub open spec fn lock_suffix() -> Seq<char> {
    seq!['l', 'o', 'c', 'k']
}

/// The folded form of a text: lower-cased, without spaces, and ending in
/// `lock`.
pub open spec fn folded(text: Seq<char>) -> Seq<char> {
    let bare = without_spaces(lowercase(text));
    if lock_suffix().is_suffix_of(bare) {
        bare
    } else {
        bare + lock_suffix()
    }
}

/// The first mode, weakest first, of which `pred` holds.
pub open spec fn first_mode(pred: spec_fn(Lock) -> bool) -> Option<Lock> {
    if pred(Lock::AccessShareLock) {
        Some(Lock::AccessShareLock)
    } else if pred(Lock::RowShareLock) {
        Some(Lock::RowShareLock)
    } else if pred(Lock::RowExclusiveLock) {
        Some(Lock::RowExclusiveLock)
    } else if pred(Lock::ShareUpdateExclusiveLock) {
        Some(Lock::ShareUpdateExclusiveLock)
    } else if pred(Lock::ShareLock) {
        Some(Lock::ShareLock)
    } else if pred(Lock::ShareRowExclusiveLock) {
        Some(Lock::ShareRowExclusiveLock)
    } else if pred(Lock::ExclusiveLock) {
        Some(Lock::ExclusiveLock)
    } else if pred(Lock::AccessExclusiveLock) {
        Some(Lock::AccessExclusiveLock)
    } else {
        None
    }
}

/// The mode that `text` spells literally, if any.
pub open spec fn literal_mode(text: Seq<char>) -> Option<Lock> {
    first_mode(|m: Lock| m.spelled_by(text))
}

/// The mode whose canonical name in lower case is `fold`, if any.
pub open spec fn mode_of_fold(fold: Seq<char>) -> Option<Lock> {
    first_mode(|m: Lock| m.folded_name() == fold)
}

/// The mode whose folded canonical name is the folded form of `text`, if any.
pub open spec fn folded_mode(text: Seq<char>) -> Option<Lock> {
    mode_of_fold(folded(text))
}

/// The mode that `text` names: by a literal spelling first, by its folded
/// form otherwise.
pub open spec fn parsed(text: Seq<char>) -> Option<Lock> {
    match literal_mode(text) {
        Some(m) => Some(m),
        None => folded_mode(text),
    }
}

impl InvalidLock {
    /// The message for this error: `invalid lock type` and the text.
    pub open spec fn message_spec(self) -> Seq<char> {
        "invalid lock type "@ + self.text@
    }

    /// The message for this error.
    pub fn message(&self) -> (text: String)
        ensures
            text@ == self.message_spec(),
    {
        let mut text = "invalid lock type ".to_owned();
        vstd::string::StringExecFns::append(&mut text, self.text.as_str());
        text
    }
}

impl Lock {
    /// Position of the mode in the order of strength, from 0 to 7.
    pub open spec fn rank(self) -> nat {
        match self {
            Lock::AccessShareLock => 0,
            Lock::RowShareLock => 1,
            Lock::RowExclusiveLock => 2,
            Lock::ShareUpdateExclusiveLock => 3,
            Lock::ShareLock => 4,
            Lock::ShareRowExclusiveLock => 5,
            Lock::ExclusiveLock => 6,
            Lock::AccessExclusiveLock => 7,
        }
    }

    /// The canonical name: CamelCase with the `Lock` suffix.
    pub open spec fn canonical(self) -> Seq<char> {
        match self {
            Lock::AccessShareLock => "AccessShareLock"@,
            Lock::RowShareLock => "RowShareLock"@,
            Lock::RowExclusiveLock => "RowExclusiveLock"@,
            Lock::ShareUpdateExclusiveLock => "ShareUpdateExclusiveLock"@,
            Lock::ShareLock => "ShareLock"@,
            Lock::ShareRowExclusiveLock => "ShareRowExclusiveLock"@,
            Lock::ExclusiveLock => "ExclusiveLock"@,
            Lock::AccessExclusiveLock => "AccessExclusiveLock"@,
        }
    }

    /// The canonical name without its `Lock` suffix.
    pub open spec fn short(self) -> Seq<char> {
        match self {
            Lock::AccessShareLock => "AccessShare"@,
            Lock::RowShareLock => "RowShare"@,
            Lock::RowExclusiveLock => "RowExclusive"@,
            Lock::ShareUpdateExclusiveLock => "ShareUpdateExclusive"@,
            Lock::ShareLock => "Share"@,
            Lock::ShareRowExclusiveLock => "ShareRowExclusive"@,
            Lock::ExclusiveLock => "Exclusive"@,
            Lock::AccessExclusiveLock => "AccessExclusive"@,
        }
    }

    /// The SQL keywords of the mode: upper case, separated by one space.
    pub open spec fn keywords(self) -> Seq<char> {
        match self {
            Lock::AccessShareLock => "ACCESS SHARE"@,
            Lock::RowShareLock => "ROW SHARE"@,
            Lock::RowExclusiveLock => "ROW EXCLUSIVE"@,
            Lock::ShareUpdateExclusiveLock => "SHARE UPDATE EXCLUSIVE"@,
            Lock::ShareLock => "SHARE"@,
            Lock::ShareRowExclusiveLock => "SHARE ROW EXCLUSIVE"@,
            Lock::ExclusiveLock => "EXCLUSIVE"@,
            Lock::AccessExclusiveLock => "ACCESS EXCLUSIVE"@,
        }
    }

    /// The canonical name in lower case.
    pub open spec fn folded_name(self) -> Seq<char> {
        lowercase(self.canonical())
    }

    /// Whether `text` is one of the three literal spellings of the mode.
    pub open spec fn spelled_by(self, text: Seq<char>) -> bool {
        text == self.canonical() || text == self.short() || text == self.keywords()
    }

    /// Whether a column of the type with this object identifier can hold a
    /// mode: the type is `text` or `varchar`.
    pub fn accepts(oid: u32) -> (accepted: bool)
        ensures
            accepted == (oid == TEXT_OID || oid == VARCHAR_OID),
    {
        oid == TEXT_OID || oid == VARCHAR_OID
    }

    /// The mode at a position in the order of strength.
    pub fn from_rank(rank: u8) -> (mode: Lock)
        requires
            rank < 8,
        ensures
            mode.rank() == rank,
    {
        if rank == 0 {
            Lock::AccessShareLock
        } else if rank == 1 {
            Lock::RowShareLock
        } else if rank == 2 {
            Lock::RowExclusiveLock
        } else if rank == 3 {
            Lock::ShareUpdateExclusiveLock
        } else if rank == 4 {
            Lock::ShareLock
        } else if rank == 5 {
            Lock::ShareRowExclusiveLock
        } else if rank == 6 {
            Lock::ExclusiveLock
        } else {
            Lock::AccessExclusiveLock
        }
    }

    /// The position of the mode in the order of strength.
    pub fn ordinal(&self) -> (rank: u8)
        ensures
            rank == self.rank(),
    {
        match self {
            Lock::AccessShareLock => 0,
            Lock::RowShareLock => 1,
            Lock::RowExclusiveLock => 2,
            Lock::ShareUpdateExclusiveLock => 3,
            Lock::ShareLock => 4,
            Lock::ShareRowExclusiveLock => 5,
            Lock::ExclusiveLock => 6,
            Lock::AccessExclusiveLock => 7,
        }
    }

    /// The canonical name of the mode.
    pub fn name(&self) -> (text: &'static str)
        ensures
            text@ == self.canonical(),
    {
        match self {
            Lock::AccessShareLock => "AccessShareLock",
            Lock::RowShareLock => "RowShareLock",
            Lock::RowExclusiveLock => "RowExclusiveLock",
            Lock::ShareUpdateExclusiveLock => "ShareUpdateExclusiveLock",
            Lock::ShareLock => "ShareLock",
            Lock::ShareRowExclusiveLock => "ShareRowExclusiveLock",
            Lock::ExclusiveLock => "ExclusiveLock",
            Lock::AccessExclusiveLock => "AccessExclusiveLock",
        }
    }

    /// The canonical name of the mode, as an owned string.
    pub fn to_string(&self) -> (text: String)
        ensures
            text@ == self.canonical(),
    {
        self.name().to_owned()
    }

    /// The name of the mode without its `Lock` suffix.
    pub fn short_name(&self) -> (text: &'static str)
        ensures
            text@ == self.short(),
    {
        match self {
            Lock::AccessShareLock => "AccessShare",
            Lock::RowShareLock => "RowShare",
            Lock::RowExclusiveLock => "RowExclusive",
            Lock::ShareUpdateExclusiveLock => "ShareUpdateExclusive",
            Lock::ShareLock => "Share",
            Lock::ShareRowExclusiveLock => "ShareRowExclusive",
            Lock::ExclusiveLock => "Exclusive",
            Lock::AccessExclusiveLock => "AccessExclusive",
        }
    }

    /// The SQL keywords of the mode.
    pub fn sql_keywords(&self) -> (text: &'static str)
        ensures
            text@ == self.keywords(),
    {
        match self {
            Lock::AccessShareLock => "ACCESS SHARE",
            Lock::RowShareLock => "ROW SHARE",
            Lock::RowExclusiveLock => "ROW EXCLUSIVE",
            Lock::ShareUpdateExclusiveLock => "SHARE UPDATE EXCLUSIVE",
            Lock::ShareLock => "SHARE",
            Lock::ShareRowExclusiveLock => "SHARE ROW EXCLUSIVE",
            Lock::ExclusiveLock => "EXCLUSIVE",
            Lock::AccessExclusiveLock => "ACCESS EXCLUSIVE",
        }
    }

    /// The mode that a text names.
    ///
    /// The three literal spellings of each mode are tried first; a text that
    /// is none of them is folded and held against the folded canonical
    /// names. The error holds the text as it was given.
    pub fn from_str(value: &str) -> (r: Result<Lock, InvalidLock>)
        ensures
            match r {
                Ok(mode) => parsed(value@) == Some(mode),
                Err(e) => parsed(value@) is None && e.text@ == value@,
            },
    {
        match find_literal(value) {
            Some(mode) => Ok(mode),
            None => {
                let chars = chars_of(value);
                let fold = fold_chars(&chars);
                match find_folded(&fold) {
                    Some(mode) => Ok(mode),
                    None => Err(InvalidLock { text: value.to_owned() }),
                }
            },
        }
    }
}

/// Where `pred` holds of a mode and of none before it, that mode is the first.
pub proof fn lemma_first_mode_found(pred: spec_fn(Lock) -> bool, mode: Lock)
    requires
        pred(mode),
        forall|m: Lock| m.rank() < mode.rank() ==> !pred(m),
    ensures
        first_mode(pred) == Some(mode),
{
    assert(Lock::AccessShareLock.rank() == 0);
    assert(Lock::RowShareLock.rank() == 1);
    assert(Lock::RowExclusiveLock.rank() == 2);
    assert(Lock::ShareUpdateExclusiveLock.rank() == 3);
    assert(Lock::ShareLock.rank() == 4);
    assert(Lock::ShareRowExclusiveLock.rank() == 5);
    assert(Lock::ExclusiveLock.rank() == 6);
    assert(Lock::AccessExclusiveLock.rank() == 7);
}

/// Where `pred` holds of no mode, there is no first.
proof fn lemma_first_mode_none(pred: spec_fn(Lock) -> bool)
    requires
        forall|m: Lock| m.rank() < 8 ==> !pred(m),
    ensures
        first_mode(pred) is None,
{
    assert(Lock::AccessShareLock.rank() == 0);
    assert(Lock::RowShareLock.rank() == 1);
    assert(Lock::RowExclusiveLock.rank() == 2);
    assert(Lock::ShareUpdateExclusiveLock.rank() == 3);
    assert(Lock::ShareLock.rank() == 4);
    assert(Lock::ShareRowExclusiveLock.rank() == 5);
    assert(Lock::ExclusiveLock.rank() == 6);
    assert(Lock::AccessExclusiveLock.rank() == 7);
}

/// The mode that `value` spells literally.
fn find_literal(value: &str) -> (r: Option<Lock>)
    ensures
        r == literal_mode(value@),
{
    let ghost pred = |m: Lock| m.spelled_by(value@);
    let mut rank: u8 = 0;
    while rank < 8
        invariant
            rank <= 8,
            pred == (|m: Lock| m.spelled_by(value@)),
            forall|m: Lock| m.rank() < rank ==> !pred(m),
        decreases 8 - rank,
    {
        let mode = Lock::from_rank(rank);
        if text_eq(value, mode.name()) || text_eq(value, mode.short_name()) || text_eq(
            value,
            mode.sql_keywords(),
        ) {
            proof {
                assert(pred(mode));
                lemma_first_mode_found(pred, mode);
            }
            return Some(mode);
        }
        assert(!pred(mode));
        rank += 1;
    }
    proof {
        lemma_first_mode_none(pred);
    }
    None
}

/// The lower-case form of a character.
fn lower_char(c: char) -> (r: char)
    ensures
        r == lower(c),
{
    if 'A' <= c && c <= 'Z' {
        ((c as u8) + 32) as char
    } else {
        c
    }
}

/// Filtering a text that has one more character at its end.
proof fn lemma_without_spaces_push(text: Seq<char>, c: char)
    ensures
        without_spaces(text.push(c)) == if c != ' ' {
            without_spaces(text).push(c)
        } else {
            without_spaces(text)
        },
{
    reveal(Seq::filter);
    assert(text.push(c).drop_last() =~= text);
}

/// The folded form of a text.
fn fold_chars(chars: &Vec<char>) -> (fold: Vec<char>)
    ensures
        fold@ == folded(chars@),
{
    let mut fold: Vec<char> = Vec::new();
    let mut i: usize = 0;
    proof {
        reveal(Seq::filter);
        assert(lowercase(chars@.take(0)) =~= Seq::<char>::empty());
    }
    while i < chars.len()
        invariant
            i <= chars.len(),
            fold@ == without_spaces(lowercase(chars@.take(i as int))),
        decreases chars.len() - i,
    {
        let c = lower_char(chars[i]);
        proof {
            let before = lowercase(chars@.take(i as int));
            assert(lowercase(chars@.take(i + 1)) =~= before.push(c));
            lemma_without_spaces_push(before, c);
        }
        if c != ' ' {
            fold.push(c);
        }
        i += 1;
    }
    assert(chars@.take(chars.len() as int) =~= chars@);
    let n = fold.len();
    let suffixed = n >= 4 && fold[n - 4] == 'l' && fold[n - 3] == 'o' && fold[n - 2] == 'c'
        && fold[n - 1] == 'k';
    proof {
        if suffixed {
            assert(fold@.subrange(n - 4, n as int) =~= lock_suffix());
        } else if n >= 4 {
            let tail = fold@.subrange(n - 4, n as int);
            assert(tail[0] == fold@[n - 4] && tail[1] == fold@[n - 3] && tail[2] == fold@[n - 2]
                && tail[3] == fold@[n - 1]);
        }
    }
    if !suffixed {
        let ghost bare = fold@;
        fold.push('l');
        fold.push('o');
        fold.push('c');
        fold.push('k');
        assert(fold@ =~= bare + lock_suffix());
    }
    fold
}

/// Whether a sequence of characters is the text of a literal.
fn chars_are(chars: &Vec<char>, literal: &str) -> (r: bool)
    ensures
        r == (chars@ == literal@),
{
    if literal.unicode_len() != chars.len() {
        return false;
    }
    let mut i: usize = 0;
    while i < chars.len()
        invariant
            i <= chars.len(),
            chars.len() == literal@.len(),
            forall|k: int| 0 <= k < i ==> chars@[k] == literal@[k],
        decreases chars.len() - i,
    {
        if chars[i] != literal.get_char(i) {
            return false;
        }
        i += 1;
    }
    assert(chars@ =~= literal@);
    true
}

impl Lock {
    /// The canonical name of the mode in lower case.
    pub fn lower_name(&self) -> (text: &'static str)
        ensures
            text@ == self.folded_name(),
    {
        match self {
            Lock::AccessShareLock => {
                proof {
                    reveal_strlit("AccessShareLock");
                    reveal_strlit("accesssharelock");
                    assert("accesssharelock"@ =~= lowercase("AccessShareLock"@));
                }
                "accesssharelock"
            },
            Lock::RowShareLock => {
                proof {
                    reveal_strlit("RowShareLock");
                    reveal_strlit("rowsharelock");
                    assert("rowsharelock"@ =~= lowercase("RowShareLock"@));
                }
                "rowsharelock"
            },
            Lock::RowExclusiveLock => {
                proof {
                    reveal_strlit("RowExclusiveLock");
                    reveal_strlit("rowexclusivelock");
                    assert("rowexclusivelock"@ =~= lowercase("RowExclusiveLock"@));
                }
                "rowexclusivelock"
            },
            Lock::ShareUpdateExclusiveLock => {
                proof {
                    reveal_strlit("ShareUpdateExclusiveLock");
                    reveal_strlit("shareupdateexclusivelock");
                    assert("shareupdateexclusivelock"@ =~= lowercase(
                        "ShareUpdateExclusiveLock"@,
                    ));
                }
                "shareupdateexclusivelock"
            },
            Lock::ShareLock => {
                proof {
                    reveal_strlit("ShareLock");
                    reveal_strlit("sharelock");
                    assert("sharelock"@ =~= lowercase("ShareLock"@));
                }
                "sharelock"
            },
            Lock::ShareRowExclusiveLock => {
                proof {
                    reveal_strlit("ShareRowExclusiveLock");
                    reveal_strlit("sharerowexclusivelock");
                    assert("sharerowexclusivelock"@ =~= lowercase("ShareRowExclusiveLock"@));
                }
                "sharerowexclusivelock"
            },
            Lock::ExclusiveLock => {
                proof {
                    reveal_strlit("ExclusiveLock");
                    reveal_strlit("exclusivelock");
                    assert("exclusivelock"@ =~= lowercase("ExclusiveLock"@));
                }
                "exclusivelock"
            },
            Lock::AccessExclusiveLock => {
                proof {
                    reveal_strlit("AccessExclusiveLock");
                    reveal_strlit("accessexclusivelock");
                    assert("accessexclusivelock"@ =~= lowercase("AccessExclusiveLock"@));
                }
                "accessexclusivelock"
            },
        }
    }
}

/// The mode whose canonical name in lower case is `fold`.
fn find_folded(fold: &Vec<char>) -> (r: Option<Lock>)
    ensures
        r == mode_of_fold(fold@),
{
    let ghost pred = |m: Lock| m.folded_name() == fold@;
    let mut rank: u8 = 0;
    while rank < 8
        invariant
            rank <= 8,
            pred == (|m: Lock| m.folded_name() == fold@),
            forall|m: Lock| m.rank() < rank ==> !pred(m),
        decreases 8 - rank,
    {
        let mode = Lock::from_rank(rank);
        if chars_are(fold, mode.lower_name()) {
            proof {
                assert(pred(mode));
                lemma_first_mode_found(pred, mode);
            }
            return Some(mode);
        }
        assert(!pred(mode));
        rank += 1;
    }
    proof {
        lemma_first_mode_none(pred);
    }
    None
}

} // verus!
