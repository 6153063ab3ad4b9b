//! The raw content of a program section: its name, the words of its command
//! and the set of its process names.

use crate::text::{same_text, texts};
use vstd::prelude::*;

verus! {

/// The mathematical content of a [`ProgramSection`].
pub struct ProgramSectionView {
    pub programname: Seq<char>,
    pub command: Seq<Seq<char>>,
    pub processnames: Set<Seq<char>>,
}

/// The raw content of a program section.
#[derive(Debug)]
pub struct ProgramSection {
    programname: String,
    command: Vec<String>,
    processnames: Vec<String>,
}

impl View for ProgramSection {
    type V = ProgramSectionView;

    closed spec fn view(&self) -> ProgramSectionView {
        ProgramSectionView {
            programname: self.programname@,
            command: texts(self.command@),
            processnames: texts(self.processnames@).to_set(),
        }
    }
}

impl ProgramSection {
    /// The invariant: no process name is held twice.
    pub closed spec fn wf(&self) -> bool {
        texts(self.processnames@).no_duplicates()
    }

    /// The section of the program `programname`, with no command and no
    /// process name yet.
    pub fn new(programname: String) -> (r: Self)
        ensures
            r.wf(),
            r@ == (ProgramSectionView {
                programname: programname@,
                command: Seq::empty(),
                processnames: Set::empty(),
            }),
    {
        let r = ProgramSection { programname, command: Vec::new(), processnames: Vec::new() };
        proof {
            assert(texts(r.command@) =~= Seq::<Seq<char>>::empty());
            assert(texts(r.processnames@).to_set() =~= Set::<Seq<char>>::empty());
        }
        r
    }

    /// Appends a word to the command.
    pub fn add_command(&mut self, command: String)
        requires
            old(self).wf(),
        ensures
            final(self).wf(),
            final(self)@ == (ProgramSectionView {
                command: old(self)@.command.push(command@),
                ..old(self)@
            }),
    {
        proof {
            crate::text::lemma_texts_push(self.command@, command);
        }
        self.command.push(command);
    }

    /// Adds a process name to the set; a name that is held already changes
    /// nothing.
    pub fn add_processname(&mut self, processname: String)
        requires
            old(self).wf(),
        ensures
            final(self).wf(),
            final(self)@ == (ProgramSectionView {
                processnames: old(self)@.processnames.insert(processname@),
                ..old(self)@
            }),
    {
        let ghost before = texts(self.processnames@);
        let mut i: usize = 0;
        while i < self.processnames.len()
            invariant
                i <= self.processnames@.len(),
                *self == *old(self),
                self.wf(),
                before == texts(self.processnames@),
                forall|k: int| 0 <= k < i ==> before[k] != processname@,
            decreases self.processnames@.len() - i,
        {
            if same_text(self.processnames[i].as_str(), processname.as_str()) {
                proof {
                    assert(before[i as int] == processname@);
                    assert(before.to_set().contains(processname@));
                    assert(before.to_set().insert(processname@) =~= before.to_set());
                }
                return;
            }
            i += 1;
        }
        proof {
            crate::text::lemma_texts_push(self.processnames@, processname);
            let after = before.push(processname@);
            assert(after.no_duplicates());
            assert(after.to_set() =~= before.to_set().insert(processname@)) by {
                assert forall|t: Seq<char>| after.to_set().contains(t) <==> before.to_set().insert(
                    processname@,
                ).contains(t) by {
                    if after.contains(t) {
                        let k = choose|k: int| 0 <= k < after.len() && after[k] == t;
                        if k < before.len() {
                            assert(before[k] == t);
                        }
                    }
                    if before.contains(t) {
                        let k = choose|k: int| 0 <= k < before.len() && before[k] == t;
                        assert(after[k] == t);
                    }
                    if t == processname@ {
                        assert(after[before.len() as int] == t);
                    }
                }
            }
        }
        self.processnames.push(processname);
    }

    /// The name of the program.
    pub fn programname(&self) -> (r: &String)
        ensures
            r@ == self@.programname,
    {
        &self.programname
    }

    /// The words of the command.
    pub fn command(&self) -> (r: &Vec<String>)
        ensures
            texts(r@) == self@.command,
    {
        &self.command
    }

    /// The process names, each once.
    pub fn processnames(&self) -> (r: &Vec<String>)
        requires
            self.wf(),
        ensures
            texts(r@).no_duplicates(),
            texts(r@).to_set() == self@.processnames,
    {
        &self.processnames
    }
}

} // verus!
