//! The kinds of section that a configuration holds.

use crate::text::same_text;
use vstd::prelude::*;

verus! {

/// A kind of section.
#[derive(Debug, Clone, Copy, PartialEq, Eq, Structural)]
pub enum Section {
    /// The daemon's own settings.
    Taskmasterd,
    /// The description of one program.
    Program,
}

impl Section {
    /// The kind as it is written in a section header.
    pub open spec fn key(self) -> Seq<char> {
        match self {
            Section::Taskmasterd => "taskmasterd"@,
            Section::Program => "program"@,
        }
    }

    /// The kind that is written `t`, if there is one.
    pub open spec fn named(t: Seq<char>) -> Option<Section> {
        if exists|k: Section| k.key() == t {
            Some(choose|k: Section| k.key() == t)
        } else {
            None
        }
    }

    /// The kind as it is written in a section header.
    pub fn as_str(&self) -> (r: &'static str)
        ensures
            r@ == self.key(),
    {
        match self {
            Section::Taskmasterd => "taskmasterd",
            Section::Program => "program",
        }
    }

    /// The kind that is written `s`, if there is one.
    pub fn from_str(s: &str) -> (r: Option<Self>)
        ensures
            r == Self::named(s@),
    {
        if same_text(s, "taskmasterd") {
            proof {
                lemma_section_named(Section::Taskmasterd);
            }
            Some(Section::Taskmasterd)
        } else if same_text(s, "program") {
            proof {
                lemma_section_named(Section::Program);
            }
            Some(Section::Program)
        } else {
            assert forall|k: Section| k.key() != s@ by {
                match k {
                    Section::Taskmasterd => {},
                    Section::Program => {},
                }
            }
            None
        }
    }
}

/// No two kinds of section are written alike.
pub proof fn lemma_sections_distinct(a: Section, b: Section)
    requires
        a.key() == b.key(),
    ensures
        a == b,
{
    reveal_strlit("taskmasterd");
    reveal_strlit("program");
    let x = a.key();
    let y = b.key();
    assert(x.len() == y.len());
    assert(x[0] == y[0]);
}

/// A kind is the one that its own text names.
pub proof fn lemma_section_named(k: Section)
    ensures
        Section::named(k.key()) == Some(k),
{
    let found = choose|c: Section| c.key() == k.key();
    lemma_sections_distinct(found, k);
}

} // verus!
