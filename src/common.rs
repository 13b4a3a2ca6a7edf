//! The configuration tree, per-folder options and the errors of compilation.
use regex::Regex;
use vstd::prelude::*;
use vstd::string::*;

verus! {

/// One node of a domain's folder tree.
#[derive(Debug)]
pub enum SieveDomainConfig {
    /// Localparts routed to this folder with the default options.
    SimpleFilter(StringOrVec),
    /// Localparts with labels and options of their own.
    FullFilter(FullFilter),
    /// Named sub-folders, in the order they are walked; the name `self`
    /// stands for the folder itself.
    SubDomainConfig(Vec<(String, SieveDomainConfig)>),
}

/// Localparts of a folder, with labels (label name and header keywords, in
/// any order) and options.
#[derive(Debug)]
pub struct FullFilter<T = StringOrVec, O = Option<FilterOptions>> {
    pub localparts: T,
    pub labels: Option<Vec<(String, T)>>,
    pub options: O,
}

/// Options of a folder: each one set or unset, or all resolved (`B = bool`).
#[derive(Debug, Clone, Copy, PartialEq, Eq, Structural)]
pub struct FilterOptions<B = Option<bool>> {
    /// Whether a rule derived from the folder's name is added.
    pub generic: B,
    /// Whether that rule is derived from the whole path, not the last folder.
    pub fullpath: B,
    /// Whether matching mail is marked as read.
    pub mark_as_read: B,
}

/// One string, or a list of strings.
#[derive(Debug, Clone)]
pub enum StringOrVec {
    String(String),
    Vec(Vec<String>),
}

/// What a [`StringOrVec`] holds, as character sequences.
pub enum StringOrSeq {
    One(Seq<char>),
    Many(Seq<Seq<char>>),
}

/// What a [`FullFilter`] holds, as character sequences.
pub struct FullFilterView<T, O> {
    pub localparts: T,
    pub labels: Option<Seq<(Seq<char>, T)>>,
    pub options: O,
}

/// Why a configuration cannot be compiled. `S` is `Seq<char>` in contracts.
#[derive(Debug, Clone, PartialEq, Eq)]
pub enum ConfigError<S = String> {
    /// The named value is an empty string.
    EmptyString { name: S },
    /// The named value is an empty list.
    EmptyArray { name: S },
    /// The named list holds an empty string.
    EmptyArrayEntry { name: S },
    /// `fullpath` is set on a folder that gets no generic rule.
    FullpathWithoutGeneric { path: S },
    /// `fullpath` is set on a top-level folder.
    FullpathOnTopFolder { path: S },
    /// A folder holds an empty set of sub-folders.
    EmptySubConfig { path: S },
    /// A sub-folder has an empty name.
    EmptyFolderName { path: S },
    /// `self` is used at the top of a domain.
    SelfAtDomainLevel,
    /// `self` is the only sub-folder of a folder.
    SelfWithoutSubFolder { path: S },
    /// No folder name can be taken from the end of the path.
    NoFolderName { path: S },
    /// The top of a domain is a filter, not a set of folders.
    FilterAtDomainLevel,
    /// Two folders of the tree reach the same path.
    DuplicatePath { path: S },
    /// Two sub-folders of a folder have the same name.
    RepeatedFolderName { path: S },
    /// The named value holds only blanks.
    BlankString { name: S },
}

/// The message that reports an error.
pub open spec fn error_message(e: ConfigError<Seq<char>>) -> Seq<char> {
    match e {
        ConfigError::EmptyString { name } => "ERROR: "@ + name + " cannot be empty string."@,
        ConfigError::EmptyArray { name } => "ERROR: Array of "@ + name + " cannot be empty."@,
        ConfigError::EmptyArrayEntry { name } => "ERROR: Array of "@ + name
            + " cannot contain empty string."@,
        ConfigError::FullpathWithoutGeneric { path } => "ERROR: Not generating generic filters for "@
            + path + ", set fullpath option is useless."@,
        ConfigError::FullpathOnTopFolder { path } => "ERROR: "@ + path
            + " is the whole path, set fullpath option is useless."@,
        ConfigError::EmptySubConfig { path } => "ERROR: Found an empty sub-domain config at "@ + path
            + ", are you high ?"@,
        ConfigError::EmptyFolderName { path } => "ERROR: Oups...empty string cannot be used for folder name in "@
            + path + "."@,
        ConfigError::SelfAtDomainLevel => "ERROR: Sorry baby ): 'self' field is not supported at domain level."@,
        ConfigError::SelfWithoutSubFolder { path } => "ERROR: Hm...Why use 'self' in "@ + path
            + " if there is no sub-folder, are you high ?"@,
        ConfigError::NoFolderName { path } => "ERROR: No folder name ends the path "@ + path + "."@,
        ConfigError::FilterAtDomainLevel => "ERROR: A domain must hold folders, not a filter."@,
        ConfigError::DuplicatePath { path } => "ERROR: Two folders of the config reach "@ + path
            + "."@,
        ConfigError::RepeatedFolderName { path } => "ERROR: Two sub-folders have the same name in "@
            + path + "."@,
        ConfigError::BlankString { name } => "ERROR: "@ + name + " cannot be blank."@,
    }
}

impl ConfigError {
    /// The message that reports this error.
    pub fn message(&self) -> (r: String)
        ensures
            r@ == error_message(self.deep_view()),
    {
        let (head, value, tail) = match self {
            ConfigError::EmptyString { name } => ("ERROR: ", name.as_str(), " cannot be empty string."),
            ConfigError::EmptyArray { name } => ("ERROR: Array of ", name.as_str(), " cannot be empty."),
            ConfigError::EmptyArrayEntry { name } => (
                "ERROR: Array of ",
                name.as_str(),
                " cannot contain empty string.",
            ),
            ConfigError::FullpathWithoutGeneric { path } => (
                "ERROR: Not generating generic filters for ",
                path.as_str(),
                ", set fullpath option is useless.",
            ),
            ConfigError::FullpathOnTopFolder { path } => (
                "ERROR: ",
                path.as_str(),
                " is the whole path, set fullpath option is useless.",
            ),
            ConfigError::EmptySubConfig { path } => (
                "ERROR: Found an empty sub-domain config at ",
                path.as_str(),
                ", are you high ?",
            ),
            ConfigError::EmptyFolderName { path } => (
                "ERROR: Oups...empty string cannot be used for folder name in ",
                path.as_str(),
                ".",
            ),
            ConfigError::SelfAtDomainLevel => {
                return String::from_str(
                    "ERROR: Sorry baby ): 'self' field is not supported at domain level.",
                );
            },
            ConfigError::SelfWithoutSubFolder { path } => (
                "ERROR: Hm...Why use 'self' in ",
                path.as_str(),
                " if there is no sub-folder, are you high ?",
            ),
            ConfigError::NoFolderName { path } => (
                "ERROR: No folder name ends the path ",
                path.as_str(),
                ".",
            ),
            ConfigError::FilterAtDomainLevel => {
                return String::from_str("ERROR: A domain must hold folders, not a filter.");
            },
            ConfigError::DuplicatePath { path } => (
                "ERROR: Two folders of the config reach ",
                path.as_str(),
                ".",
            ),
            ConfigError::RepeatedFolderName { path } => (
                "ERROR: Two sub-folders have the same name in ",
                path.as_str(),
                ".",
            ),
            ConfigError::BlankString { name } => ("ERROR: ", name.as_str(), " cannot be blank."),
        };
        let mut r = String::from_str(head);
        r.append(value);
        r.append(tail);
        r
    }
}

impl DeepView for StringOrVec {
    type V = StringOrSeq;

    open spec fn deep_view(&self) -> StringOrSeq {
        match self {
            StringOrVec::String(s) => StringOrSeq::One(s@),
            StringOrVec::Vec(v) => StringOrSeq::Many(v.deep_view()),
        }
    }
}

impl<T: DeepView, O: DeepView> DeepView for FullFilter<T, O> {
    type V = FullFilterView<T::V, O::V>;

    open spec fn deep_view(&self) -> Self::V {
        FullFilterView {
            localparts: self.localparts.deep_view(),
            labels: self.labels.deep_view(),
            options: self.options.deep_view(),
        }
    }
}

impl<B> DeepView for FilterOptions<B> {
    type V = FilterOptions<B>;

    open spec fn deep_view(&self) -> FilterOptions<B> {
        *self
    }
}

impl DeepView for ConfigError {
    type V = ConfigError<Seq<char>>;

    open spec fn deep_view(&self) -> ConfigError<Seq<char>> {
        match self {
            ConfigError::EmptyString { name } => ConfigError::EmptyString { name: name@ },
            ConfigError::EmptyArray { name } => ConfigError::EmptyArray { name: name@ },
            ConfigError::EmptyArrayEntry { name } => ConfigError::EmptyArrayEntry { name: name@ },
            ConfigError::FullpathWithoutGeneric { path } => ConfigError::FullpathWithoutGeneric {
                path: path@,
            },
            ConfigError::FullpathOnTopFolder { path } => ConfigError::FullpathOnTopFolder {
                path: path@,
            },
            ConfigError::EmptySubConfig { path } => ConfigError::EmptySubConfig { path: path@ },
            ConfigError::EmptyFolderName { path } => ConfigError::EmptyFolderName { path: path@ },
            ConfigError::SelfAtDomainLevel => ConfigError::SelfAtDomainLevel,
            ConfigError::SelfWithoutSubFolder { path } => ConfigError::SelfWithoutSubFolder {
                path: path@,
            },
            ConfigError::NoFolderName { path } => ConfigError::NoFolderName { path: path@ },
            ConfigError::FilterAtDomainLevel => ConfigError::FilterAtDomainLevel,
            ConfigError::DuplicatePath { path } => ConfigError::DuplicatePath { path: path@ },
            ConfigError::RepeatedFolderName { path } => ConfigError::RepeatedFolderName {
                path: path@,
            },
            ConfigError::BlankString { name } => ConfigError::BlankString { name: name@ },
        }
    }
}

/// A space, tab, line feed or carriage return.
pub open spec fn blank_char(c: char) -> bool {
    c == ' ' || c == '\t' || c == '\n' || c == '\r'
}

/// A text that is not empty and holds only blank characters.
pub open spec fn blank(s: Seq<char>) -> bool {
    s.len() > 0 && forall|i: int| 0 <= i < s.len() ==> blank_char(#[trigger] s[i])
}

/// Whether one of the strings is blank.
pub open spec fn has_blank(v: Seq<Seq<char>>) -> bool {
    exists|i: int| 0 <= i < v.len() && blank(#[trigger] v[i])
}

/// Whether a text is blank: not empty, and only spaces, tabs and line ends.
pub fn is_blank(s: &str) -> (r: bool)
    ensures
        r == blank(s@),
{
    let n = s.unicode_len();
    if n == 0 {
        return false;
    }
    let mut i: usize = 0;
    while i < n
        invariant
            n == s@.len(),
            i <= n,
            forall|j: int| 0 <= j < i ==> blank_char(#[trigger] s@[j]),
        decreases n - i,
    {
        let c = s.get_char(i);
        if !(c == ' ' || c == '\t' || c == '\n' || c == '\r') {
            return false;
        }
        i = i + 1;
    }
    true
}

/// The list that a string or a list of strings stands for.
pub open spec fn normalized(x: StringOrSeq) -> Seq<Seq<char>> {
    match x {
        StringOrSeq::One(s) => seq![s],
        StringOrSeq::Many(v) => v,
    }
}

/// The error for an empty string, an empty list or a list holding an empty
/// string, if `x` is one; `name` says what `x` is.
pub open spec fn emptiness(x: StringOrSeq, name: Seq<char>) -> Option<ConfigError<Seq<char>>> {
    match x {
        StringOrSeq::One(s) => if s.len() == 0 {
            Some(ConfigError::EmptyString { name })
        } else {
            None
        },
        StringOrSeq::Many(v) => if v.len() == 0 {
            Some(ConfigError::EmptyArray { name })
        } else if exists|i: int| 0 <= i < v.len() && v[i].len() == 0 {
            Some(ConfigError::EmptyArrayEntry { name })
        } else {
            None
        },
    }
}

impl StringOrVec {
    /// Hands back a value that is neither an empty string, nor an empty
    /// list, nor a list holding an empty string; [`StringOrVec::check_empty`]
    /// tells which values those are.
    pub fn panic_on_empty(self, variable_name: &str) -> (r: Self)
        requires
            emptiness(self.deep_view(), variable_name@) is None,
        ensures
            r == self,
    {
        self
    }

    /// The error for an empty string, an empty list or an empty string in
    /// the list; `variable_name` says what the value is.
    pub fn check_empty(&self, variable_name: &str) -> (r: Result<(), ConfigError>)
        ensures
            match emptiness(self.deep_view(), variable_name@) {
                Some(e) => r is Err && r->Err_0.deep_view() == e,
                None => r is Ok,
            },
    {
        match self {
            StringOrVec::String(string) => {
                if string.unicode_len() == 0 {
                    return Err(ConfigError::EmptyString { name: variable_name.to_owned() });
                }
            },
            StringOrVec::Vec(vec) => {
                if vec.len() == 0 {
                    return Err(ConfigError::EmptyArray { name: variable_name.to_owned() });
                }
                let mut i: usize = 0;
                while i < vec.len()
                    invariant
                        i <= vec.len(),
                        self.deep_view() == StringOrSeq::Many(vec.deep_view()),
                        forall|j: int| 0 <= j < i ==> vec.deep_view()[j].len() > 0,
                    decreases vec.len() - i,
                {
                    if vec[i].unicode_len() == 0 {
                        assert(vec.deep_view()[i as int] == vec[i as int]@);
                        let ghost v = vec.deep_view();
                        assert(v[i as int].len() == 0);
                        assert(exists|j: int| 0 <= j < v.len() && v[j].len() == 0);
                        return Err(ConfigError::EmptyArrayEntry { name: variable_name.to_owned() });
                    }
                    assert(vec.deep_view()[i as int] == vec[i as int]@);
                    i = i + 1;
                }
            },
        }
        Ok(())
    }

    /// A copy with the same strings.
    pub fn duplicate(&self) -> (r: StringOrVec)
        ensures
            r.deep_view() == self.deep_view(),
    {
        match self {
            StringOrVec::String(s) => StringOrVec::String(s.clone()),
            StringOrVec::Vec(v) => {
                let mut c: Vec<String> = Vec::new();
                let mut i: usize = 0;
                while i < v.len()
                    invariant
                        i <= v.len(),
                        c.deep_view() =~= v.deep_view().take(i as int),
                    decreases v.len() - i,
                {
                    let ghost before = c.deep_view();
                    let s = v[i].clone();
                    c.push(s);
                    assert(c.deep_view() =~= before.push(s@));
                    i = i + 1;
                }
                assert(v.deep_view().take(v.len() as int) =~= v.deep_view());
                StringOrVec::Vec(c)
            },
        }
    }

    /// The list of localparts: a single string becomes a list of one.
    pub fn to_vec(self) -> (r: Vec<String>)
        ensures
            r.deep_view() == normalized(self.deep_view()),
    {
        match self {
            StringOrVec::String(s) => {
                let r = vec![s];
                assert(r.deep_view() =~= seq![s@]);
                r
            },
            StringOrVec::Vec(v) => v,
        }
    }

    /// The list of localparts, or the error for an empty string, an empty list
    /// or an empty string in the list.
    pub fn normalize(self, variable_name: &str) -> (r: Result<Vec<String>, ConfigError>)
        ensures
            match emptiness(self.deep_view(), variable_name@) {
                Some(e) => r is Err && r->Err_0.deep_view() == e,
                None => r is Ok && r->Ok_0.deep_view() == normalized(self.deep_view()),
            },
    {
        match self.check_empty(variable_name) {
            Ok(()) => Ok(self.to_vec()),
            Err(e) => Err(e),
        }
    }
}

/// A copy of labels with the same strings.
pub(crate) fn copy_labels(l: &Option<Vec<(String, StringOrVec)>>) -> (r: Option<Vec<(String, StringOrVec)>>)
    ensures
        r.deep_view() == l.deep_view(),
{
    match l {
        None => None,
        Some(v) => {
            let mut c: Vec<(String, StringOrVec)> = Vec::new();
            let mut i: usize = 0;
            while i < v.len()
                invariant
                    i <= v.len(),
                    c.deep_view() =~= v.deep_view().take(i as int),
                decreases v.len() - i,
            {
                let ghost before = c.deep_view();
                let item = (v[i].0.clone(), v[i].1.duplicate());
                c.push(item);
                assert(c.deep_view() =~= before.push(item.deep_view()));
                i = i + 1;
            }
            assert(v.deep_view().take(v.len() as int) =~= v.deep_view());
            Some(c)
        },
    }
}

impl From<StringOrVec> for Vec<String> {
    fn from(o: StringOrVec) -> Vec<String> {
        o.to_vec()
    }
}

impl vstd::std_specs::convert::FromSpecImpl<StringOrVec> for Vec<String> {
    open spec fn obeys_from_spec() -> bool {
        false
    }

    open spec fn from_spec(v: StringOrVec) -> Vec<String> {
        arbitrary()
    }
}

impl FilterOptions {
    /// Each field as set here, or else as in `default`.
    pub open spec fn resolve(self, default: FilterOptions<bool>) -> FilterOptions<bool> {
        FilterOptions {
            generic: match self.generic {
                Some(v) => v,
                None => default.generic,
            },
            fullpath: match self.fullpath {
                Some(v) => v,
                None => default.fullpath,
            },
            mark_as_read: match self.mark_as_read {
                Some(v) => v,
                None => default.mark_as_read,
            },
        }
    }

    /// Resolves each unset field to the one of `default`.
    pub fn unwrap_or_default(&self, default: FilterOptions<bool>) -> (r: FilterOptions<bool>)
        ensures
            r == self.resolve(default),
    {
        let mut new = default;
        if let Some(v) = self.generic {
            new.generic = v;
        }
        if let Some(v) = self.fullpath {
            new.fullpath = v;
        }
        if let Some(v) = self.mark_as_read {
            new.mark_as_read = v;
        }
        new
    }
}

/// The overrides that a chain of them amounts to, innermost last: each field
/// as the last override that sets it, unset where none does.
pub open spec fn flatten_overrides(chain: Seq<FilterOptions>) -> FilterOptions
    decreases chain.len(),
{
    if chain.len() == 0 {
        FilterOptions { generic: None, fullpath: None, mark_as_read: None }
    } else {
        let o = chain.last();
        let f = flatten_overrides(chain.drop_last());
        FilterOptions {
            generic: if o.generic is Some {
                o.generic
            } else {
                f.generic
            },
            fullpath: if o.fullpath is Some {
                o.fullpath
            } else {
                f.fullpath
            },
            mark_as_read: if o.mark_as_read is Some {
                o.mark_as_read
            } else {
                f.mark_as_read
            },
        }
    }
}

/// Options resolved level by level down a chain of overrides.
pub open spec fn resolve_chain(base: FilterOptions<bool>, chain: Seq<FilterOptions>) -> FilterOptions<bool>
    decreases chain.len(),
{
    if chain.len() == 0 {
        base
    } else {
        chain.last().resolve(resolve_chain(base, chain.drop_last()))
    }
}

/// Resolving level by level down a path gives the options that resolving
/// once against all the overrides, flattened, gives.
pub proof fn lemma_resolve_level_by_level(base: FilterOptions<bool>, chain: Seq<FilterOptions>)
    ensures
        resolve_chain(base, chain) == flatten_overrides(chain).resolve(base),
    decreases chain.len(),
{
    if chain.len() > 0 {
        lemma_resolve_level_by_level(base, chain.drop_last());
    }
}

/// Text indented by one level of four spaces, as `indentasy` does it.
pub uninterp spec fn indented(s: Seq<char>) -> Seq<char>;

/// Relies on `indentasy::indent(s, 1, 4)`, whose result depends on the text
/// alone.
#[verifier::external_body]
pub fn code_block(s: &str) -> (r: String)
    ensures
        r@ == indented(s@),
{
    indentasy::indent(s, 1, 4)
}

/// Whether a path lies in the catch-all folder: it is `Unknown` or a
/// folder under it.
pub open spec fn unknown_path(path: Seq<char>) -> bool {
    let unknown = seq!['U', 'n', 'k', 'n', 'o', 'w', 'n'];
    path == unknown || unknown.push('/').is_prefix_of(path)
}

/// Relies on `regex::Regex::is_match` with the pattern `^Unknown(/|$)`, which
/// matches exactly `Unknown` and the texts that begin with `Unknown/`.
#[verifier::external_body]
pub fn is_unknown(path: &str) -> (r: bool)
    ensures
        r == unknown_path(path@),
{
    Regex::new(r"^Unknown(/|$)").unwrap().is_match(path)
}

} // verus!
