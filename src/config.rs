use vstd::prelude::*;
use vstd::string::StringExecFns;

use crate::entry::EntryType;
use crate::pattern::{compile, regex_compiles, NamePattern};

verus! {

/// Why a configuration could not be built: the raw token that was refused.
#[derive(Debug, PartialEq, Eq)]
pub enum ConfigError {
    InvalidName(String),
    InvalidType(String),
}

/// The text of each string in a sequence.
pub open spec fn texts(v: Seq<String>) -> Seq<Seq<char>> {
    v.map_values(|s: String| s@)
}

/// The entry type that a `--type` value names: `d`, `f` or `l`.
pub open spec fn entry_type_of(s: Seq<char>) -> Option<EntryType> {
    if s == seq!['d'] {
        Some(EntryType::Dir)
    } else if s == seq!['f'] {
        Some(EntryType::File)
    } else if s == seq!['l'] {
        Some(EntryType::Link)
    } else {
        None
    }
}

/// Reads a `--type` value.
pub fn parse_entry_type(s: &String) -> (r: Option<EntryType>)
    ensures
        r == entry_type_of(s@),
{
    proof {
        reveal_strlit("d");
        reveal_strlit("f");
        reveal_strlit("l");
    }
    let d = <String as StringExecFns>::from_str("d");
    let f = <String as StringExecFns>::from_str("f");
    let l = <String as StringExecFns>::from_str("l");
    assert(d@ =~= seq!['d'] && f@ =~= seq!['f'] && l@ =~= seq!['l']);
    if *s == d {
        Some(EntryType::Dir)
    } else if *s == f {
        Some(EntryType::File)
    } else if *s == l {
        Some(EntryType::Link)
    } else {
        None
    }
}

impl ConfigError {
    /// The message shown to the user, naming the refused token.
    pub fn message(&self) -> (r: String)
        ensures
            r@ == match self {
                ConfigError::InvalidName(n) => "Invalid --name \""@ + n@ + "\""@,
                ConfigError::InvalidType(t) => "Invalid --type \""@ + t@ + "\""@,
            },
    {
        let (mut out, token) = match self {
            ConfigError::InvalidName(n) => (<String as StringExecFns>::from_str("Invalid --name \""), n),
            ConfigError::InvalidType(t) => (<String as StringExecFns>::from_str("Invalid --type \""), t),
        };
        out.append(token.as_str());
        out.append("\"");
        out
    }
}

/// What a configuration holds, as plain values.
pub struct ConfigView {
    pub paths: Seq<Seq<char>>,
    pub names: Seq<Seq<char>>,
    pub types: Seq<EntryType>,
}

/// The roots to search, the name filters and the type filters.
#[derive(Debug)]
pub struct Config {
    paths: Vec<String>,
    names: Vec<NamePattern>,
    entry_types: Vec<EntryType>,
}

impl View for Config {
    type V = ConfigView;

    closed spec fn view(&self) -> ConfigView {
        ConfigView {
            paths: texts(self.paths@),
            names: self.names@.map_values(|p: NamePattern| p@),
            types: self.entry_types@,
        }
    }
}

/// The roots searched when none is given: the current directory.
pub open spec fn roots_of(paths: Seq<Seq<char>>) -> Seq<Seq<char>> {
    if paths.len() == 0 {
        seq![seq!['.']]
    } else {
        paths
    }
}

/// Every `--type` value names an entry type.
pub open spec fn types_valid(types: Seq<Seq<char>>) -> bool {
    forall|i: int| 0 <= i < types.len() ==> entry_type_of(#[trigger] types[i]) is Some
}

/// Every `--name` pattern compiles.
pub open spec fn names_valid(names: Seq<Seq<char>>) -> bool {
    forall|i: int| 0 <= i < names.len() ==> regex_compiles(#[trigger] names[i])
}

impl Config {
    /// Builds a configuration from the raw command-line values. The type
    /// values are checked first, then the name patterns; the first refused
    /// token of each is reported.
    pub fn new(paths: Vec<String>, names: Vec<String>, types: Vec<String>) -> (r: Result<Config, ConfigError>)
        ensures
            r is Ok <==> types_valid(texts(types@)) && names_valid(texts(names@)),
            r matches Ok(c) ==> {
                &&& c@.paths == roots_of(texts(paths@))
                &&& c@.names == texts(names@)
                &&& c@.types.len() == types@.len()
                &&& forall|i: int| 0 <= i < types@.len() ==> Some(#[trigger] c@.types[i]) == entry_type_of(types@[i]@)
            },
            r matches Err(ConfigError::InvalidType(t)) ==> exists|i: int| {
                &&& 0 <= i < types@.len()
                &&& t@ == types@[i]@
                &&& entry_type_of(t@) is None
                &&& types_valid(texts(types@).take(i))
            },
            r matches Err(ConfigError::InvalidName(n)) ==> types_valid(texts(types@)) && exists|i: int| {
                &&& 0 <= i < names@.len()
                &&& n@ == names@[i]@
                &&& !regex_compiles(n@)
                &&& names_valid(texts(names@).take(i))
            },
    {
        let mut entry_types: Vec<EntryType> = Vec::new();
        let mut i: usize = 0;
        while i < types.len()
            invariant
                i <= types@.len(),
                entry_types@.len() == i,
                types_valid(texts(types@).take(i as int)),
                forall|j: int| 0 <= j < i ==> Some(#[trigger] entry_types@[j]) == entry_type_of(types@[j]@),
            decreases types@.len() - i,
        {
            assert(texts(types@).take(i as int + 1) =~= texts(types@).take(i as int).push(types@[i as int]@));
            match parse_entry_type(&types[i]) {
                Some(t) => entry_types.push(t),
                None => {
                    assert(texts(types@)[i as int] == types@[i as int]@);
                    return Err(ConfigError::InvalidType(types[i].clone()));
                },
            }
            i = i + 1;
        }
        assert(texts(types@).take(i as int) =~= texts(types@));
        let mut patterns: Vec<NamePattern> = Vec::new();
        let mut k: usize = 0;
        while k < names.len()
            invariant
                k <= names@.len(),
                patterns@.len() == k,
                types_valid(texts(types@)),
                names_valid(texts(names@).take(k as int)),
                forall|j: int| 0 <= j < k ==> (#[trigger] patterns@[j])@ == names@[j]@,
            decreases names@.len() - k,
        {
            assert(texts(names@).take(k as int + 1) =~= texts(names@).take(k as int).push(names@[k as int]@));
            match compile(names[k].as_str()) {
                Ok(p) => patterns.push(p),
                Err(_) => {
                    assert(texts(names@)[k as int] == names@[k as int]@);
                    return Err(ConfigError::InvalidName(names[k].clone()));
                },
            }
            k = k + 1;
        }
        assert(texts(names@).take(k as int) =~= texts(names@));
        let ghost given = texts(paths@);
        let roots = if paths.len() == 0 {
            proof {
                reveal_strlit(".");
            }
            let mut v: Vec<String> = Vec::new();
            let dot = <String as StringExecFns>::from_str(".");
            assert(dot@ =~= seq!['.']);
            v.push(dot);
            assert(texts(v@) =~= seq![seq!['.']]);
            v
        } else {
            paths
        };
        assert(texts(roots@) == roots_of(given));
        let c = Config { paths: roots, names: patterns, entry_types };
        assert(c@.paths == roots_of(given));
        assert(c@.names =~= texts(names@));
        Ok(c)
    }

    /// The roots to search, in the order given.
    pub fn paths(&self) -> (r: &Vec<String>)
        ensures
            texts(r@) == self@.paths,
    {
        &self.paths
    }

    /// The name filters.
    pub fn names(&self) -> (r: &Vec<NamePattern>)
        ensures
            r@.len() == self@.names.len(),
            forall|i: int| 0 <= i < r@.len() ==> (#[trigger] r@[i])@ == self@.names[i],
    {
        &self.names
    }

    /// The type filters.
    pub fn entry_types(&self) -> (r: &Vec<EntryType>)
        ensures
            r@ == self@.types,
    {
        &self.entry_types
    }
}

} // verus!
