//! What is told about one lock mode: the modes it conflicts with, examples
//! of statements that take it, and examples of statements that it blocks,
//! which are those that take a conflicting mode.

use vstd::prelude::*;
use vstd::string::StringExecFns;

use crate::lock::Lock;

verus! {

/// Which mode is to be explained.
#[derive(Clone, Debug, PartialEq, Eq)]
pub struct Args {
    pub lock: Lock,
}

/// What is known of one mode.
#[derive(Clone, Debug, PartialEq, Eq)]
pub struct Explanation {
    /// The modes that cannot be held together with this one.
    pub conflicts: Vec<Lock>,
    /// Statements that take this mode.
    pub examples: Vec<String>,
}

/// What the explanation of a mode is rendered from.
#[derive(Clone, Debug, PartialEq, Eq)]
pub struct TemplateContext {
    /// The mode explained.
    pub lock: Lock,
    /// The modes that conflict with it.
    pub conflicts: Vec<Lock>,
    /// Statements that take it.
    pub examples: Vec<String>,
    /// Statements that it blocks: the examples of each conflicting mode, in
    /// the order of the conflicts.
    pub blocked_examples: Vec<String>,
}

/// The mode for which no explanation is on record.
#[derive(Clone, Debug, PartialEq, Eq)]
pub struct MissingExplanation {
    pub lock: Lock,
}

/// What is known of one mode, as mathematical values.
pub struct ExplanationView {
    pub conflicts: Seq<Lock>,
    pub examples: Seq<Seq<char>>,
}

/// What an explanation is rendered from, as mathematical values.
pub struct ContextView {
    pub lock: Lock,
    pub conflicts: Seq<Lock>,
    pub examples: Seq<Seq<char>>,
    pub blocked_examples: Seq<Seq<char>>,
}

/// The characters of each of a sequence of texts.
pub open spec fn texts_of(texts: Seq<String>) -> Seq<Seq<char>> {
    texts.map_values(|text: String| text@)
}

impl View for Explanation {
    type V = ExplanationView;

    open spec fn view(&self) -> ExplanationView {
        ExplanationView { conflicts: self.conflicts@, examples: texts_of(self.examples@) }
    }
}

impl View for TemplateContext {
    type V = ContextView;

    open spec fn view(&self) -> ContextView {
        ContextView {
            lock: self.lock,
            conflicts: self.conflicts@,
            examples: texts_of(self.examples@),
            blocked_examples: texts_of(self.blocked_examples@),
        }
    }
}

/// The examples of the modes that conflict, one mode after the other.
pub open spec fn blocked_examples_of(
    table: Map<Lock, ExplanationView>,
    conflicts: Seq<Lock>,
) -> Seq<Seq<char>> {
    conflicts.map_values(|conflict: Lock| table[conflict].examples).flatten()
}

/// What the explanation of `lock` is rendered from.
pub open spec fn context_of(table: Map<Lock, ExplanationView>, lock: Lock) -> ContextView {
    ContextView {
        lock,
        conflicts: table[lock].conflicts,
        examples: table[lock].examples,
        blocked_examples: blocked_examples_of(table, table[lock].conflicts),
    }
}

/// Whether every mode that `lock` conflicts with is explained in the table.
pub open spec fn conflicts_explained(table: Map<Lock, ExplanationView>, lock: Lock) -> bool {
    forall|i: int|
        0 <= i < table[lock].conflicts.len() ==> table.contains_key(
            #[trigger] table[lock].conflicts[i],
        )
}

impl MissingExplanation {
    /// The message for this error.
    pub fn message(&self) -> (text: String)
        ensures
            text@ == "failed to get explanation for "@ + self.lock.canonical(),
    {
        let mut text = "failed to get explanation for ".to_owned();
        text.append(self.lock.name());
        text
    }
}

/// The explanations on record, at most one for each mode.
pub struct Explanations {
    entries: Vec<Option<Explanation>>,
}

impl View for Explanations {
    type V = Map<Lock, ExplanationView>;

    closed spec fn view(&self) -> Map<Lock, ExplanationView> {
        Map::new(
            |lock: Lock|
                lock.rank() < self.entries.len() && self.entries@[lock.rank() as int] is Some,
            |lock: Lock| self.entries@[lock.rank() as int].unwrap()@,
        )
    }
}

/// A copy of a list of modes.
fn copy_locks(locks: &Vec<Lock>) -> (copy: Vec<Lock>)
    ensures
        copy@ == locks@,
{
    let mut copy: Vec<Lock> = Vec::new();
    let mut i: usize = 0;
    while i < locks.len()
        invariant
            i <= locks.len(),
            copy@ == locks@.take(i as int),
        decreases locks.len() - i,
    {
        copy.push(locks[i]);
        assert(locks@.take(i + 1) =~= locks@.take(i as int).push(locks@[i as int]));
        i += 1;
    }
    assert(locks@.take(locks.len() as int) =~= locks@);
    copy
}

/// Appends copies of the texts in `from` to `to`.
fn append_texts(to: &mut Vec<String>, from: &Vec<String>)
    ensures
        texts_of(final(to)@) == texts_of(old(to)@) + texts_of(from@),
{
    let ghost before = texts_of(to@);
    let mut i: usize = 0;
    assert(texts_of(to@) =~= before + texts_of(from@).take(0));
    while i < from.len()
        invariant
            i <= from.len(),
            texts_of(to@) == before + texts_of(from@).take(i as int),
        decreases from.len() - i,
    {
        let ghost earlier = to@;
        to.push(from[i].clone());
        assert(texts_of(to@) =~= texts_of(earlier).push(from@[i as int]@));
        assert(texts_of(from@).take(i + 1) =~= texts_of(from@).take(i as int).push(
            from@[i as int]@,
        ));
        i += 1;
    }
    assert(texts_of(from@).take(from.len() as int) =~= texts_of(from@));
}

impl Explanations {
    /// A record without any explanation.
    pub fn new() -> (table: Self)
        ensures
            table@ == Map::<Lock, ExplanationView>::empty(),
    {
        let table = Explanations { entries: Vec::new() };
        assert(table@ =~= Map::<Lock, ExplanationView>::empty());
        table
    }

    /// Records the explanation of a mode, in place of an earlier one if
    /// there was one.
    pub fn insert(&mut self, lock: Lock, explanation: Explanation)
        ensures
            final(self)@ == old(self)@.insert(lock, explanation@),
    {
        let ghost before = self@;
        let ghost told = explanation@;
        let slot = lock.ordinal() as usize;
        while self.entries.len() <= slot
            invariant
                slot < 8,
                self@ == before,
            decreases 8 - self.entries.len(),
        {
            let ghost earlier = self@;
            self.entries.push(None);
            assert(self@ =~= earlier);
        }
        self.entries.set(slot, Some(explanation));
        assert(self@ =~= before.insert(lock, told)) by {
            assert forall|other: Lock| other.rank() == lock.rank() implies other == lock by {}
        }
    }

    /// The explanation of a mode, if one is on record.
    pub fn get(&self, lock: Lock) -> (found: Option<&Explanation>)
        ensures
            match found {
                Some(explanation) => self@.contains_key(lock) && explanation@ == self@[lock],
                None => !self@.contains_key(lock),
            },
    {
        let slot = lock.ordinal() as usize;
        if slot < self.entries.len() {
            self.entries[slot].as_ref()
        } else {
            None
        }
    }

    /// Whether every mode that `lock` conflicts with is explained.
    pub fn explains_conflicts_of(&self, lock: Lock) -> (complete: bool)
        requires
            self@.contains_key(lock),
        ensures
            complete == conflicts_explained(self@, lock),
    {
        match self.get(lock) {
            None => true,
            Some(explanation) => {
                let mut i: usize = 0;
                while i < explanation.conflicts.len()
                    invariant
                        i <= explanation.conflicts.len(),
                        self@.contains_key(lock),
                        explanation@ == self@[lock],
                        forall|k: int|
                            0 <= k < i ==> self@.contains_key(
                                #[trigger] explanation.conflicts@[k],
                            ),
                    decreases explanation.conflicts.len() - i,
                {
                    if self.get(explanation.conflicts[i]).is_none() {
                        assert(!self@.contains_key(self@[lock].conflicts[i as int]));
                        return false;
                    }
                    i += 1;
                }
                true
            },
        }
    }

    /// What the explanation of `lock` is rendered from; an error where the
    /// mode itself is not explained.
    pub fn context(&self, lock: Lock) -> (result: Result<TemplateContext, MissingExplanation>)
        requires
            self@.contains_key(lock) ==> conflicts_explained(self@, lock),
        ensures
            match result {
                Ok(context) => self@.contains_key(lock) && context@ == context_of(self@, lock),
                Err(missing) => !self@.contains_key(lock) && missing.lock == lock,
            },
    {
        let explanation = match self.get(lock) {
            Some(explanation) => explanation,
            None => {
                return Err(MissingExplanation { lock });
            },
        };
        let ghost table = self@;
        let ghost conflicts = explanation.conflicts@;
        let ghost each = |conflict: Lock| table[conflict].examples;
        let mut blocked_examples: Vec<String> = Vec::new();
        let mut i: usize = 0;
        assert(conflicts.take(0).map_values(each) =~= Seq::<Seq<Seq<char>>>::empty());
        assert(texts_of(blocked_examples@) =~= Seq::<Seq<char>>::empty());
        while i < explanation.conflicts.len()
            invariant
                i <= explanation.conflicts.len(),
                table == self@,
                conflicts == explanation.conflicts@,
                each == (|conflict: Lock| table[conflict].examples),
                forall|k: int| 0 <= k < conflicts.len() ==> table.contains_key(#[trigger] conflicts[k]),
                texts_of(blocked_examples@) == conflicts.take(i as int).map_values(each).flatten(),
            decreases explanation.conflicts.len() - i,
        {
            let conflict = explanation.conflicts[i];
            match self.get(conflict) {
                Some(other) => {
                    proof {
                        let done = conflicts.take(i as int).map_values(each);
                        assert(conflicts.take(i + 1).map_values(each) =~= done.push(
                            each(conflict),
                        ));
                        done.lemma_flatten_push(each(conflict));
                    }
                    append_texts(&mut blocked_examples, &other.examples);
                },
                None => {
                    assert(false);
                },
            }
            i += 1;
        }
        assert(conflicts.take(conflicts.len() as int) =~= conflicts);
        let mut examples: Vec<String> = Vec::new();
        append_texts(&mut examples, &explanation.examples);
        assert(texts_of(examples@) =~= texts_of(explanation.examples@));
        Ok(
            TemplateContext {
                lock,
                conflicts: copy_locks(&explanation.conflicts),
                examples,
                blocked_examples,
            },
        )
    }
}

} // verus!
