//! Task filters: which tasks a command applies to.
use vstd::prelude::*;
use vstd::slice::slice_subrange;
use vstd::string::*;

use crate::tokens::words;

verus! {

/// The set of tasks a filter starts from.
#[derive(Debug, PartialEq, Eq, Clone)]
pub enum Universe {
    /// Only the tasks with these working-set ids.
    IdList(Vec<usize>),
    /// Every task in the database.
    AllTasks,
}

/// Mathematical model of a `Universe`.
pub enum UniverseView {
    IdList(Seq<usize>),
    AllTasks,
}

impl View for Universe {
    type V = UniverseView;

    open spec fn view(&self) -> UniverseView {
        match self {
            Universe::IdList(ids) => UniverseView::IdList(ids@),
            Universe::AllTasks => UniverseView::AllTasks,
        }
    }
}

impl Universe {
    /// The universe of exactly the given ids, in the given order.
    pub fn for_ids(ids: Vec<usize>) -> (r: Universe)
        ensures
            r@ == UniverseView::IdList(ids@),
    {
        Universe::IdList(ids)
    }
}

impl Default for Universe {
    fn default() -> (r: Universe)
        ensures
            r@ == UniverseView::AllTasks,
    {
        Universe::AllTasks
    }
}

/// A selection of tasks.
#[derive(Debug, PartialEq, Eq, Clone)]
pub struct Filter {
    pub universe: Universe,
}

impl View for Filter {
    type V = UniverseView;

    open spec fn view(&self) -> UniverseView {
        self.universe@
    }
}

impl Default for Filter {
    fn default() -> (r: Filter)
        ensures
            r@ == UniverseView::AllTasks,
    {
        Filter { universe: Universe::AllTasks }
    }
}

/// A listing: the tasks of a filter.
#[derive(Debug, PartialEq, Eq, Clone)]
pub struct Report {
    pub filter: Filter,
}

impl View for Report {
    type V = UniverseView;

    open spec fn view(&self) -> UniverseView {
        self.filter@
    }
}

impl Default for Report {
    fn default() -> (r: Report)
        ensures
            r@ == UniverseView::AllTasks,
    {
        Report { filter: Filter::default() }
    }
}

pub open spec fn is_digit(c: char) -> bool {
    '0' <= c && c <= '9'
}

/// The number that a string of decimal digits denotes.
pub open spec fn decimal_value(d: Seq<char>) -> nat
    decreases d.len(),
{
    if d.len() == 0 {
        0
    } else {
        decimal_value(d.drop_last()) * 10 + (d.last() as nat - '0' as nat) as nat
    }
}

/// The pieces of `s` between commas, in order (`"1,,2"` gives three pieces).
pub open spec fn split_commas(s: Seq<char>) -> Seq<Seq<char>>
    decreases s.len(),
{
    if s.len() == 0 {
        seq![Seq::<char>::empty()]
    } else {
        let prev = split_commas(s.drop_last());
        if s.last() == ',' {
            prev.push(Seq::<char>::empty())
        } else {
            prev.update(prev.len() - 1, prev.last().push(s.last()))
        }
    }
}

/// Only digits, denoting a number that fits in `usize` (possibly no digits at all).
pub open spec fn digits_fit(p: Seq<char>) -> bool {
    &&& forall|k: int| 0 <= k < p.len() ==> is_digit(#[trigger] p[k])
    &&& decimal_value(p) <= usize::MAX
}

/// One id of a list: at least one digit, and a value that fits in `usize`.
pub open spec fn is_id(p: Seq<char>) -> bool {
    p.len() > 0 && digits_fit(p)
}

/// The ids that a token such as `12,13` lists, or `None` when it is no id list.
pub open spec fn id_list(s: Seq<char>) -> Option<Seq<usize>> {
    let parts = split_commas(s);
    if forall|j: int| 0 <= j < parts.len() ==> is_id(#[trigger] parts[j]) {
        Some(parts.map_values(|p: Seq<char>| decimal_value(p) as usize))
    } else {
        None
    }
}


/// A prefix whose pieces can no longer all become ids, whatever follows.
pub open spec fn doomed(parts: Seq<Seq<char>>) -> bool {
    ||| exists|j: int| 0 <= j < parts.len() - 1 && !is_id(#[trigger] parts[j])
    ||| !digits_fit(parts.last())
}

/// Splitting at commas always gives at least one piece.
pub proof fn lemma_split_nonempty(s: Seq<char>)
    ensures
        split_commas(s).len() >= 1,
    decreases s.len(),
{
    if s.len() > 0 {
        lemma_split_nonempty(s.drop_last());
    }
}

/// Splitting one more character: a comma opens a new piece, anything else
/// extends the last one.
proof fn lemma_split_push(p: Seq<char>, c: char)
    ensures
        split_commas(p.push(c)) == (if c == ',' {
            split_commas(p).push(Seq::<char>::empty())
        } else {
            split_commas(p).update(
                split_commas(p).len() - 1,
                split_commas(p).last().push(c),
            )
        }),
{
    assert(p.push(c).drop_last() == p);
}

proof fn lemma_value_push(d: Seq<char>, c: char)
    ensures
        decimal_value(d.push(c)) == decimal_value(d) * 10 + (c as nat - '0' as nat) as nat,
{
    assert(d.push(c).drop_last() == d);
}

proof fn lemma_doomed_step(p: Seq<char>, c: char)
    requires
        doomed(split_commas(p)),
    ensures
        doomed(split_commas(p.push(c))),
{
    lemma_split_nonempty(p);
    lemma_split_push(p, c);
    let parts = split_commas(p);
    let next = split_commas(p.push(c));
    if exists|j: int| 0 <= j < parts.len() - 1 && !is_id(#[trigger] parts[j]) {
        let j = choose|j: int| 0 <= j < parts.len() - 1 && !is_id(#[trigger] parts[j]);
        assert(next[j] == parts[j]);
    } else if c == ',' {
        assert(next[parts.len() - 1] == parts.last());
    } else {
        let last = parts.last();
        assert(next.last() == last.push(c));
        lemma_value_push(last, c);
        if forall|k: int| 0 <= k < last.len() ==> is_digit(#[trigger] last[k]) {
            if is_digit(c) {
                assert(decimal_value(last.push(c)) > usize::MAX);
            } else {
                assert(last.push(c)[last.len() as int] == c);
            }
        } else {
            let k = choose|k: int| 0 <= k < last.len() && !is_digit(#[trigger] last[k]);
            assert(last.push(c)[k] == last[k]);
        }
    }
}

proof fn lemma_doomed_extends(s: Seq<char>, i: int)
    requires
        0 <= i <= s.len(),
        doomed(split_commas(s.subrange(0, i))),
    ensures
        doomed(split_commas(s)),
    decreases s.len(),
{
    if i < s.len() {
        let p = s.drop_last();
        assert(p.subrange(0, i) == s.subrange(0, i));
        lemma_doomed_extends(p, i);
        lemma_doomed_step(p, s.last());
        assert(p.push(s.last()) == s);
    } else {
        assert(s.subrange(0, i) == s);
    }
}

proof fn lemma_doomed_no_list(s: Seq<char>)
    requires
        doomed(split_commas(s)),
    ensures
        id_list(s).is_none(),
{
    lemma_split_nonempty(s);
    let parts = split_commas(s);
    if exists|j: int| 0 <= j < parts.len() - 1 && !is_id(#[trigger] parts[j]) {
        let j = choose|j: int| 0 <= j < parts.len() - 1 && !is_id(#[trigger] parts[j]);
        assert(!is_id(parts[j]));
    } else {
        assert(!is_id(parts[parts.len() - 1]));
    }
}

/// Reads a token as a comma-separated list of ids.
pub fn parse_ids(tok: &str) -> (r: Option<Vec<usize>>)
    ensures
        match r {
            Some(v) => id_list(tok@) == Some(v@),
            None => id_list(tok@).is_none(),
        },
{
    let ghost s = tok@;
    let n = tok.unicode_len();
    let mut ids: Vec<usize> = Vec::new();
    let mut cur: usize = 0;
    let mut cur_len: usize = 0;
    let mut i: usize = 0;
    proof {
        assert(s.subrange(0, 0) =~= Seq::<char>::empty());
    }
    while i < n
        invariant
            n == s.len(),
            s == tok@,
            i <= n,
            split_commas(s.subrange(0, i as int)).len() == ids@.len() + 1,
            split_commas(s.subrange(0, i as int)).last().len() == cur_len,
            cur_len <= i,
            forall|j: int|
                0 <= j < ids@.len() ==> is_id(#[trigger] split_commas(s.subrange(0, i as int))[j])
                    && ids@[j] == decimal_value(split_commas(s.subrange(0, i as int))[j]) as usize,
            digits_fit(split_commas(s.subrange(0, i as int)).last()),
            cur == decimal_value(split_commas(s.subrange(0, i as int)).last()),
        decreases n - i,
    {
        let c = tok.get_char(i);
        let ghost p = s.subrange(0, i as int);
        let ghost parts = split_commas(p);
        proof {
            assert(s.subrange(0, i + 1) == p.push(c));
            lemma_split_push(p, c);
            lemma_split_nonempty(p);
        }
        if c == ',' {
            if cur_len == 0 {
                proof {
                    assert(!is_id(parts.last()));
                    let next = split_commas(p.push(c));
                    assert(next[parts.len() - 1] == parts.last());
                    assert(doomed(next));
                    lemma_doomed_extends(s, i + 1);
                    lemma_doomed_no_list(s);
                }
                return None;
            }
            ids.push(cur);
            cur = 0;
            cur_len = 0;
            proof {
                let next = split_commas(p.push(c));
                assert forall|j: int| 0 <= j < ids@.len() implies is_id(#[trigger] next[j])
                    && ids@[j] == decimal_value(next[j]) as usize by {
                    assert(next[j] == parts[j]);
                }
                assert(next.last() =~= Seq::<char>::empty());
            }
        } else if '0' <= c && c <= '9' {
            let d = (c as u32 - '0' as u32) as usize;
            proof {
                lemma_value_push(parts.last(), c);
            }
            let m = cur.checked_mul(10);
            let t = match m {
                Some(x) => x.checked_add(d),
                None => None,
            };
            match t {
                Some(v) => {
                    cur = v;
                    cur_len = cur_len + 1;
                    proof {
                        let next = split_commas(p.push(c));
                        let last = parts.last().push(c);
                        assert(next.last() == last);
                        assert forall|j: int| 0 <= j < ids@.len() implies is_id(#[trigger] next[j])
                            && ids@[j] == decimal_value(next[j]) as usize by {
                            assert(next[j] == parts[j]);
                        }
                        assert forall|k: int| 0 <= k < last.len() implies is_digit(#[trigger] last[k]) by {
                            if k < last.len() - 1 {
                                assert(last[k] == parts.last()[k]);
                            }
                        }
                    }
                },
                None => {
                    proof {
                        let next = split_commas(p.push(c));
                        assert(next.last() == parts.last().push(c));
                        assert(doomed(next));
                        lemma_doomed_extends(s, i + 1);
                        lemma_doomed_no_list(s);
                    }
                    return None;
                },
            }
        } else {
            proof {
                let next = split_commas(p.push(c));
                let last = parts.last().push(c);
                assert(next.last() == last);
                assert(!is_digit(last[last.len() - 1]));
                assert(doomed(next));
                lemma_doomed_extends(s, i + 1);
                lemma_doomed_no_list(s);
            }
            return None;
        }
        i = i + 1;
    }
    proof {
        assert(s.subrange(0, n as int) == s);
    }
    let ghost parts = split_commas(s);
    if cur_len == 0 {
        proof {
            assert(!is_id(parts[parts.len() - 1]));
        }
        return None;
    }
    ids.push(cur);
    proof {
        assert forall|j: int| 0 <= j < parts.len() implies is_id(#[trigger] parts[j]) by {
            if j < parts.len() - 1 {
                assert(is_id(parts[j]));
            }
        }
        assert(ids@ =~= parts.map_values(|p: Seq<char>| decimal_value(p) as usize));
    }
    Some(ids)
}


/// The filter at the front of a token stream, and how many tokens it takes:
/// a leading id list, else every task and no token.
pub open spec fn filter_spec(toks: Seq<Seq<char>>) -> (UniverseView, int) {
    if toks.len() > 0 && id_list(toks[0]).is_some() {
        (UniverseView::IdList(id_list(toks[0]).unwrap()), 1)
    } else {
        (UniverseView::AllTasks, 0)
    }
}

impl Filter {
    /// Reads a filter from the front of the tokens; it may take none of them.
    pub fn parse<'a>(input: &'a [&'a str]) -> (r: (&'a [&'a str], Filter))
        ensures
            r.1@ == filter_spec(words(input)).0,
            r.0@ == input@.skip(filter_spec(words(input)).1),
    {
        if input.len() > 0 {
            let ids = parse_ids(input[0]);
            proof {
                assert(words(input)[0] == input@[0]@);
            }
            if let Some(v) = ids {
                let rest = slice_subrange(input, 1, input.len());
                proof {
                    assert(rest@ =~= input@.skip(1));
                }
                return (rest, Filter { universe: Universe::IdList(v) });
            }
        }
        proof {
            assert(input@ =~= input@.skip(0));
        }
        (input, Filter::default())
    }
}

impl Report {
    /// Reads the filter of a report from the front of the tokens.
    pub fn parse<'a>(input: &'a [&'a str]) -> (r: (&'a [&'a str], Report))
        ensures
            r.1@ == filter_spec(words(input)).0,
            r.0@ == input@.skip(filter_spec(words(input)).1),
    {
        let (rest, filter) = Filter::parse(input);
        (rest, Report { filter })
    }
}

} // verus!
