use vstd::prelude::*;
use vstd::string::StringExecFns;

use crate::config::{texts, Config, ConfigView};
use crate::entry::{classify, kind_of, EntryType, TraversalEntry};
use crate::pattern::{is_match, regex_is_match};

verus! {

/// One step of a walk: an entry, or the text of an error met at that point.
pub type WalkItem = Result<TraversalEntry, String>;

/// An entry passes the type filters when there are none, or when its kind
/// is one of them.
pub open spec fn type_ok(types: Seq<EntryType>, e: TraversalEntry) -> bool {
    types.len() == 0 || exists|i: int| 0 <= i < types.len() && kind_of(e) == Some(#[trigger] types[i])
}

/// An entry passes the name filters when there are none, or when one of the
/// patterns matches somewhere in its base name.
pub open spec fn name_ok(names: Seq<Seq<char>>, e: TraversalEntry) -> bool {
    names.len() == 0 || exists|i: int| 0 <= i < names.len() && regex_is_match(#[trigger] names[i], e.name@)
}

/// An entry is kept when it passes both kinds of filter.
pub open spec fn included(c: ConfigView, e: TraversalEntry) -> bool {
    type_ok(c.types, e) && name_ok(c.names, e)
}

/// The paths of the kept entries of a walk, in walk order; errors are skipped.
pub open spec fn selected(c: ConfigView, items: Seq<WalkItem>) -> Seq<Seq<char>>
    decreases items.len(),
{
    if items.len() == 0 {
        Seq::empty()
    } else {
        let prev = selected(c, items.drop_last());
        match items.last() {
            Ok(e) => if included(c, e) {
                prev.push(e.path@)
            } else {
                prev
            },
            Err(_) => prev,
        }
    }
}

/// The error texts of a walk, in walk order.
pub open spec fn failures(items: Seq<WalkItem>) -> Seq<Seq<char>>
    decreases items.len(),
{
    if items.len() == 0 {
        Seq::empty()
    } else {
        let prev = failures(items.drop_last());
        match items.last() {
            Ok(_) => prev,
            Err(m) => prev.push(m@),
        }
    }
}

/// The paths of every entry of a walk, in walk order.
pub open spec fn entry_paths(items: Seq<WalkItem>) -> Seq<Seq<char>>
    decreases items.len(),
{
    if items.len() == 0 {
        Seq::empty()
    } else {
        let prev = entry_paths(items.drop_last());
        match items.last() {
            Ok(e) => prev.push(e.path@),
            Err(_) => prev,
        }
    }
}

/// Lines joined with a newline between each two.
pub open spec fn joined(lines: Seq<Seq<char>>) -> Seq<char>
    decreases lines.len(),
{
    if lines.len() == 0 {
        Seq::empty()
    } else if lines.len() == 1 {
        lines[0]
    } else {
        joined(lines.drop_last()) + seq!['\n'] + lines.last()
    }
}

/// The printed block of each root, one per walk, in the order of the walks.
pub open spec fn blocks_of(c: ConfigView, walks: Seq<Seq<WalkItem>>) -> Seq<Seq<char>> {
    walks.map_values(|w: Seq<WalkItem>| joined(selected(c, w)))
}

/// What searching one root gave: the kept paths and the errors met.
pub struct RootReport {
    pub matches: Vec<String>,
    pub errors: Vec<String>,
}

impl RootReport {
    /// The block printed for the root: the kept paths, one per line.
    pub fn block(&self) -> (r: String)
        ensures
            r@ == joined(texts(self.matches@)),
    {
        join_lines(&self.matches)
    }
}

/// Joins lines with a newline between each two.
pub fn join_lines(lines: &Vec<String>) -> (r: String)
    ensures
        r@ == joined(texts(lines@)),
{
    let mut out = String::new();
    let mut i: usize = 0;
    while i < lines.len()
        invariant
            i <= lines@.len(),
            out@ == joined(texts(lines@).take(i as int)),
        decreases lines@.len() - i,
    {
        let ghost before = out@;
        let ghost t = texts(lines@);
        assert(t.take(i as int + 1).drop_last() =~= t.take(i as int));
        assert(t.take(i as int + 1).last() == lines@[i as int]@);
        proof {
            reveal_strlit("\n");
        }
        assert("\n"@ =~= seq!['\n']);
        if i > 0 {
            out.append("\n");
        }
        out.append(lines[i].as_str());
        proof {
            if i == 0 {
                assert(out@ =~= t.take(1)[0]);
            } else {
                assert(out@ =~= before + seq!['\n'] + lines@[i as int]@);
            }
        }
        i = i + 1;
    }
    assert(texts(lines@).take(i as int) =~= texts(lines@));
    out
}

impl Config {
    /// Whether an entry passes the type filters.
    pub fn type_matches(&self, e: &TraversalEntry) -> (r: bool)
        ensures
            r == type_ok(self@.types, *e),
    {
        let types = self.entry_types();
        if types.len() == 0 {
            return true;
        }
        let kind = classify(e);
        let mut i: usize = 0;
        while i < types.len()
            invariant
                i <= types@.len(),
                types@ == self@.types,
                kind == kind_of(*e),
                forall|j: int| 0 <= j < i ==> kind_of(*e) != Some(#[trigger] types@[j]),
            decreases types@.len() - i,
        {
            match kind {
                Some(k) => {
                    if k == types[i] {
                        return true;
                    }
                },
                None => {},
            }
            i = i + 1;
        }
        false
    }

    /// Whether an entry passes the name filters.
    pub fn name_matches(&self, e: &TraversalEntry) -> (r: bool)
        ensures
            r == name_ok(self@.names, *e),
    {
        let names = self.names();
        if names.len() == 0 {
            return true;
        }
        let mut i: usize = 0;
        while i < names.len()
            invariant
                i <= names@.len(),
                names@.len() == self@.names.len(),
                forall|j: int| 0 <= j < names@.len() ==> (#[trigger] names@[j])@ == self@.names[j],
                forall|j: int| 0 <= j < i ==> !regex_is_match(#[trigger] self@.names[j], e.name@),
            decreases names@.len() - i,
        {
            if is_match(&names[i], e.name.as_str()) {
                return true;
            }
            i = i + 1;
        }
        false
    }

    /// Whether an entry is kept: it passes the type filters and the name
    /// filters.
    pub fn includes(&self, e: &TraversalEntry) -> (r: bool)
        ensures
            r == included(self@, *e),
    {
        self.type_matches(e) && self.name_matches(e)
    }

    /// Runs the filters over the walk of one root: the paths of the kept
    /// entries, and the text of each error, both in walk order.
    pub fn select(&self, items: &Vec<WalkItem>) -> (r: RootReport)
        ensures
            texts(r.matches@) == selected(self@, items@),
            texts(r.errors@) == failures(items@),
    {
        let mut matches: Vec<String> = Vec::new();
        let mut errors: Vec<String> = Vec::new();
        let mut i: usize = 0;
        while i < items.len()
            invariant
                i <= items@.len(),
                texts(matches@) == selected(self@, items@.take(i as int)),
                texts(errors@) == failures(items@.take(i as int)),
            decreases items@.len() - i,
        {
            let ghost m0 = texts(matches@);
            let ghost e0 = texts(errors@);
            assert(items@.take(i as int + 1).drop_last() =~= items@.take(i as int));
            assert(items@.take(i as int + 1).last() == items@[i as int]);
            match &items[i] {
                Ok(e) => {
                    if self.includes(e) {
                        matches.push(e.path.clone());
                        assert(texts(matches@) =~= m0.push(e.path@));
                    }
                },
                Err(m) => {
                    errors.push(m.clone());
                    assert(texts(errors@) =~= e0.push(m@));
                },
            }
            i = i + 1;
        }
        assert(items@.take(i as int) =~= items@);
        RootReport { matches, errors }
    }

    /// Searches each root's walk on its own: one report per walk, in the
    /// order of the walks.
    pub fn reports(&self, walks: &Vec<Vec<WalkItem>>) -> (r: Vec<RootReport>)
        ensures
            r@.len() == walks@.len(),
            forall|i: int|
                0 <= i < walks@.len() ==> {
                    &&& texts((#[trigger] r@[i]).matches@) == selected(self@, walks@[i]@)
                    &&& texts(r@[i].errors@) == failures(walks@[i]@)
                },
    {
        let mut out: Vec<RootReport> = Vec::new();
        let mut i: usize = 0;
        while i < walks.len()
            invariant
                i <= walks@.len(),
                out@.len() == i,
                forall|j: int|
                    0 <= j < i ==> {
                        &&& texts((#[trigger] out@[j]).matches@) == selected(self@, walks@[j]@)
                        &&& texts(out@[j].errors@) == failures(walks@[j]@)
                    },
            decreases walks@.len() - i,
        {
            let report = self.select(&walks[i]);
            out.push(report);
            i = i + 1;
        }
        out
    }
}

} // verus!
