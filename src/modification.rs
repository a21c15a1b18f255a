//! Modifications: the changes a command makes to the tasks it selects.
use vstd::prelude::*;
use vstd::slice::slice_subrange;
use vstd::string::*;

use crate::tokens::words;

verus! {

/// The status of a task.
#[derive(Debug, PartialEq, Eq, Clone, Copy, Structural)]
pub enum Status {
    Pending,
    Completed,
    Deleted,
}

/// How a modification changes a task's description.
#[derive(Debug, PartialEq, Eq, Clone)]
pub enum DescriptionMod {
    /// Leave the description as it is.
    Unset,
    /// Replace the description.
    Replace(String),
    /// Put this text before the description.
    Prepend(String),
    /// Put this text after the description.
    Append(String),
}

/// Mathematical model of a `DescriptionMod`.
pub enum DescriptionView {
    Unset,
    Replace(Seq<char>),
    Prepend(Seq<char>),
    Append(Seq<char>),
}

impl View for DescriptionMod {
    type V = DescriptionView;

    open spec fn view(&self) -> DescriptionView {
        match self {
            DescriptionMod::Unset => DescriptionView::Unset,
            DescriptionMod::Replace(s) => DescriptionView::Replace(s@),
            DescriptionMod::Prepend(s) => DescriptionView::Prepend(s@),
            DescriptionMod::Append(s) => DescriptionView::Append(s@),
        }
    }
}

impl Default for DescriptionMod {
    fn default() -> (r: DescriptionMod)
        ensures
            r@ == DescriptionView::Unset,
    {
        DescriptionMod::Unset
    }
}

/// A bundle of changes to tasks; each field left at `None` or `Unset` changes nothing.
#[derive(Debug, PartialEq, Eq, Clone)]
pub struct Modification {
    pub description: DescriptionMod,
    pub status: Option<Status>,
    pub active: Option<bool>,
}

/// Mathematical model of a `Modification`.
pub struct ModificationView {
    pub description: DescriptionView,
    pub status: Option<Status>,
    pub active: Option<bool>,
}

impl View for Modification {
    type V = ModificationView;

    open spec fn view(&self) -> ModificationView {
        ModificationView {
            description: self.description@,
            status: self.status,
            active: self.active,
        }
    }
}

/// The modification that changes nothing.
pub open spec fn no_change() -> ModificationView {
    ModificationView { description: DescriptionView::Unset, status: None, active: None }
}

impl Default for Modification {
    fn default() -> (r: Modification)
        ensures
            r@ == no_change(),
    {
        Modification { description: DescriptionMod::Unset, status: None, active: None }
    }
}

/// The words joined with single spaces.
pub open spec fn join_words(ws: Seq<Seq<char>>) -> Seq<char>
    decreases ws.len(),
{
    if ws.len() == 0 {
        Seq::<char>::empty()
    } else if ws.len() == 1 {
        ws[0]
    } else {
        join_words(ws.drop_last()) + seq![' '] + ws.last()
    }
}

/// The modification that a list of tokens describes: the words, if any, set the description.
pub open spec fn modification_spec(toks: Seq<Seq<char>>) -> ModificationView {
    ModificationView {
        description: if toks.len() == 0 {
            DescriptionView::Unset
        } else {
            DescriptionView::Replace(join_words(toks))
        },
        status: None,
        active: None,
    }
}

/// Joins the tokens with single spaces.
fn join_tokens(input: &[&str]) -> (r: String)
    ensures
        r@ == join_words(words(input)),
{
    let mut s = String::new();
    let mut i: usize = 0;
    while i < input.len()
        invariant
            i <= input@.len(),
            s@ == join_words(words(input).subrange(0, i as int)),
        decreases input.len() - i,
    {
        let ghost ws = words(input).subrange(0, i + 1);
        proof {
            assert(ws.drop_last() =~= words(input).subrange(0, i as int));
            assert(ws.last() == input@[i as int]@);
        }
        if i > 0 {
            s.append(" ");
            proof {
                reveal_strlit(" ");
            }
        } else {
            proof {
                assert(words(input).subrange(0, 0) =~= Seq::<Seq<char>>::empty());
            }
        }
        s.append(input[i]);
        proof {
            assert(s@ =~= join_words(ws));
        }
        i = i + 1;
    }
    proof {
        assert(words(input).subrange(0, input@.len() as int) =~= words(input));
    }
    s
}

impl Modification {
    /// Reads a modification from all of the remaining tokens.
    pub fn parse<'a>(input: &'a [&'a str]) -> (r: (&'a [&'a str], Modification))
        ensures
            r.1@ == modification_spec(words(input)),
            r.0@ == input@.skip(input@.len() as int),
    {
        let description = if input.len() == 0 {
            DescriptionMod::Unset
        } else {
            DescriptionMod::Replace(join_tokens(input))
        };
        let rest = slice_subrange(input, input.len(), input.len());
        proof {
            assert(rest@ =~= input@.skip(input@.len() as int));
        }
        (rest, Modification { description, status: None, active: None })
    }
}

} // verus!
