//! The walk over a domain's folder tree, which fills a custom and a generic
//! set of rules, and the text of one or more domains.
use crate::common::{
    code_block, copy_labels, indented, is_unknown, unknown_path, ConfigError, FilterOptions, FullFilter, FullFilterView,
    SieveDomainConfig, StringOrSeq, StringOrVec,
};
use regex::Regex;
use vstd::prelude::*;
use vstd::string::*;

pub mod filter_generator;

use filter_generator::{
    registered, rendered, reopened, rules_wf, unknown_branch, EntryView, FilterGenerator, GeneratorView,
};

verus! {

/// Rules keyed by path, in ascending order of path.
pub type Rules = Seq<(Seq<char>, EntryView)>;

/// What a [`DomainGenerator`] holds.
pub struct DomainView {
    pub custom: GeneratorView,
    pub generic: GeneratorView,
}

/// The custom and the generic rules of one domain.
pub struct DomainGenerator {
    custom_filter_generator: FilterGenerator,
    generic_filter_generator: FilterGenerator,
}

impl View for DomainGenerator {
    type V = DomainView;

    closed spec fn view(&self) -> DomainView {
        DomainView {
            custom: self.custom_filter_generator@,
            generic: self.generic_filter_generator@,
        }
    }
}

/// The folder that every folder of a domain lies in.
pub open spec fn domain_folder_of(domain: Seq<char>, domain_as_first_folder: bool) -> Seq<char> {
    if domain_as_first_folder {
        "@"@ + domain + "/"@
    } else {
        Seq::empty()
    }
}

/// The view of a domain's generators holding the given rules.
pub open spec fn domain_view(domain_folder: Seq<char>, rules: (Rules, Rules)) -> DomainView {
    DomainView {
        custom: GeneratorView {
            name: "Custom"@,
            domain_folder,
            filters: rules.0,
            begin_with_else: false,
        },
        generic: GeneratorView {
            name: "Generic"@,
            domain_folder,
            filters: rules.1,
            begin_with_else: true,
        },
    }
}

/// The options a folder starts from: in the catch-all folder, no generic rule
/// and mark as read.
pub open spec fn default_options(path: Seq<char>) -> FilterOptions<bool> {
    if unknown_path(path) {
        FilterOptions { generic: false, fullpath: false, mark_as_read: true }
    } else {
        FilterOptions { generic: true, fullpath: false, mark_as_read: false }
    }
}

/// The resolved options of a node: a filter's own options over the
/// defaults. In the catch-all folder `generic` and `mark_as_read` stay
/// pinned, whatever a filter sets: no generic rule, and mail marked as read.
pub open spec fn node_options(node: SieveDomainConfig, path: Seq<char>) -> FilterOptions<bool> {
    let o = match node {
        SieveDomainConfig::FullFilter(f) => match f.options {
            Some(o) => o.resolve(default_options(path)),
            None => default_options(path),
        },
        _ => default_options(path),
    };
    if unknown_path(path) {
        FilterOptions { generic: false, mark_as_read: true, ..o }
    } else {
        o
    }
}

/// Whether two sub-folders have the same name.
pub open spec fn has_repeated_key(kids: Seq<(String, SieveDomainConfig)>) -> bool {
    exists|i: int, j: int| 0 <= i < j < kids.len() && kids[i].0@ == kids[j].0@
}

/// Whether the walk of a domain's tree from its top succeeds after `rules`.
pub open spec fn compiles(config: SieveDomainConfig, rules: (Rules, Rules)) -> bool {
    walk(config, Seq::empty(), rules) is Ok
}

/// Whether two sub-folders have the same name.
fn repeated_key(kids: &Vec<(String, SieveDomainConfig)>) -> (r: bool)
    ensures
        r == has_repeated_key(kids@),
{
    let mut j: usize = 1;
    while j < kids.len()
        invariant
            1 <= j,
            forall|a: int, b: int| 0 <= a < b < j && b < kids@.len() ==> kids@[a].0@ != kids@[b].0@,
        decreases kids.len() - j,
    {
        let mut i: usize = 0;
        while i < j
            invariant
                i <= j < kids.len(),
                forall|a: int, b: int| 0 <= a < b < j ==> kids@[a].0@ != kids@[b].0@,
                forall|a: int| 0 <= a < i ==> kids@[a].0@ != kids@[j as int].0@,
            decreases j - i,
        {
            if kids[i].0 == kids[j].0 {
                return true;
            }
            i = i + 1;
        }
        j = j + 1;
    }
    false
}

/// Whether one of the sub-folders is named `self`.
pub open spec fn has_self_child(kids: Seq<(String, SieveDomainConfig)>) -> bool {
    exists|i: int| 0 <= i < kids.len() && kids[i].0@ == "self"@
}

/// Whether a node adds a generic rule of its own.
pub open spec fn wants_generic(node: SieveDomainConfig, path: Seq<char>) -> bool {
    &&& node_options(node, path).generic
    &&& path.len() > 0
    &&& !(node matches SieveDomainConfig::SubDomainConfig(kids) && has_self_child(kids@))
}

/// The path of a sub-folder: `self` stands for the folder itself.
pub open spec fn child_path(path: Seq<char>, key: Seq<char>) -> Seq<char> {
    if path.len() == 0 {
        key
    } else if key == "self"@ {
        path
    } else {
        path + "/"@ + key
    }
}

/// Whether the slash at `j` can start the capture of `.*/(.+)$`: a
/// character follows it, and no newline does.
pub open spec fn folder_cut(h: Seq<char>, j: int) -> bool {
    &&& 0 <= j < h.len() - 1
    &&& h[j] == '/'
    &&& forall|k: int| j < k < h.len() ==> h[k] != '\n'
}

/// What `.*/(.+)$` captures: the text after the last slash that can start a
/// capture, if any does.
pub open spec fn last_folder(h: Seq<char>) -> Option<Seq<char>> {
    if exists|j: int| folder_cut(h, j) {
        let j = choose|j: int| folder_cut(h, j) && forall|k: int| folder_cut(h, k) ==> k <= j;
        Some(h.subrange(j + 1, h.len() as int))
    } else {
        None
    }
}

/// Relies on `regex::Regex::captures` with the pattern `.*/(.+)$`: the match
/// lies on the last line (`.` takes no newline, `$` is the end), and the
/// greedy `.*` takes it up to the last slash that leaves a character after.
#[verifier::external_body]
fn last_folder_capture(path: &str) -> (r: Option<String>)
    ensures
        match r {
            Some(s) => last_folder(path@) == Some(s@),
            None => last_folder(path@) is None,
        },
{
    Regex::new(r".*/(.+)$").unwrap().captures(path).map(|c| c[1].to_string())
}

/// The last folder of a path; a path without a slash is its own last folder.
pub open spec fn filename_spec(path: Seq<char>) -> Option<Seq<char>> {
    if path.contains('/') {
        last_folder(path)
    } else {
        Some(path)
    }
}

/// Whether a slash occurs in `s`.
fn has_slash(s: &str) -> (r: bool)
    ensures
        r == s@.contains('/'),
{
    let n = s.unicode_len();
    let mut i: usize = 0;
    while i < n
        invariant
            n == s@.len(),
            i <= n,
            forall|k: int| 0 <= k < i ==> s@[k] != '/',
        decreases n - i,
    {
        if s.get_char(i) == '/' {
            return true;
        }
        i = i + 1;
    }
    false
}

/// The last folder of a path.
pub fn filename_of(path: &str) -> (r: Option<String>)
    ensures
        match r {
            Some(s) => filename_spec(path@) == Some(s@),
            None => filename_spec(path@) is None,
        },
{
    if has_slash(path) {
        last_folder_capture(path)
    } else {
        Some(path.to_owned())
    }
}

/// Each run of whitespace replaced by one hyphen, as the regex `\s+` finds
/// the runs.
pub uninterp spec fn blanks_hyphenated(s: Seq<char>) -> Seq<char>;

/// Relies on `regex::Regex::replace_all` with the pattern `\s+` and the
/// replacement `-`; the result depends on the text alone, and a non-empty
/// text stays non-empty.
#[verifier::external_body]
fn hyphenate_blanks(s: &str) -> (r: String)
    ensures
        r@ == blanks_hyphenated(s@),
        s@.len() > 0 ==> r@.len() > 0,
{
    Regex::new(r"\s+").unwrap().replace_all(s, "-").into_owned()
}

pub open spec fn slashes_dotted(s: Seq<char>) -> Seq<char> {
    s.map_values(|c: char| if c == '/' { '.' } else { c })
}

/// Relies on `regex::Regex::replace_all` with the pattern `/` and the
/// literal replacement `.`: each slash becomes a dot.
#[verifier::external_body]
fn dot_slashes(s: &str) -> (r: String)
    ensures
        r@ == slashes_dotted(s@),
{
    Regex::new(r"/").unwrap().replace_all(s, ".").into_owned()
}

/// The lowercase form of a text, by Unicode's mapping.
pub uninterp spec fn lower_of(s: Seq<char>) -> Seq<char>;

/// Relies on `str::to_lowercase`, whose result depends on the text alone;
/// each character maps to one or more, so a non-empty text stays non-empty.
#[verifier::external_body]
fn lowercase(s: &str) -> (r: String)
    ensures
        r@ == lower_of(s@),
        s@.len() > 0 ==> r@.len() > 0,
{
    s.to_lowercase()
}

/// The localpart derived from folders: `Home bills/Electricity` gives
/// `home-bills.electricity`.
pub open spec fn generic_localpart(path: Seq<char>) -> Seq<char> {
    lower_of(slashes_dotted(blanks_hyphenated(path)))
}

/// Lowercases a path, with hyphens for whitespace and dots for slashes.
pub fn path_to_prefix_generic_localpart(path: &str) -> (r: String)
    ensures
        r@ == generic_localpart(path@),
        path@.len() > 0 ==> r@.len() > 0,
{
    let hyphenated = hyphenate_blanks(path);
    let dotted = dot_slashes(hyphenated.as_str());
    lowercase(dotted.as_str())
}

proof fn lemma_has_self_push(s: Seq<(String, SieveDomainConfig)>, x: (String, SieveDomainConfig))
    ensures
        has_self_child(s.push(x)) == (has_self_child(s) || x.0@ == "self"@),
{
    let t = s.push(x);
    if has_self_child(s) {
        let j = choose|j: int| 0 <= j < s.len() && #[trigger] s[j].0@ == "self"@;
        assert(t[j] == s[j]);
    }
    if x.0@ == "self"@ {
        assert(t[s.len() as int] == x);
    }
    if has_self_child(t) {
        let j = choose|j: int| 0 <= j < t.len() && #[trigger] t[j].0@ == "self"@;
        if j < s.len() {
            assert(s[j] == t[j]);
        }
    }
}

/// An error among the first `k` domains is the error of all of them.
proof fn lemma_domains_text_err(ds: Seq<(String, SieveDomainConfig, bool)>, k: int)
    requires
        0 <= k <= ds.len(),
        domains_text(ds.take(k)) is Err,
    ensures
        domains_text(ds) == domains_text(ds.take(k)),
    decreases ds.len() - k,
{
    if k < ds.len() {
        assert(ds.take(k + 1).drop_last() =~= ds.take(k));
        lemma_domains_text_err(ds, k + 1);
    } else {
        assert(ds.take(k) =~= ds);
    }
}

/// The node's own rule in the custom set, after its options are checked.
pub open spec fn dispatch(node: SieveDomainConfig, path: Seq<char>, rules: (Rules, Rules)) -> Result<
    (Rules, Rules),
    ConfigError<Seq<char>>,
>
    decreases node, 0int,
{
    match node {
        SieveDomainConfig::SimpleFilter(localparts) => if path.len() == 0 {
            Err(ConfigError::FilterAtDomainLevel)
        } else {
            match registered(
                rules.0,
                path,
                FullFilterView {
                    localparts: localparts.deep_view(),
                    labels: None,
                    options: default_options(path),
                },
            ) {
                Ok(c) => Ok((c, rules.1)),
                Err(e) => Err(e),
            }
        },
        SieveDomainConfig::FullFilter(f) => {
            let options = node_options(node, path);
            let fullpath_set = f.options is Some && f.options->0.fullpath is Some;
            if fullpath_set && !options.generic {
                Err(ConfigError::FullpathWithoutGeneric { path })
            } else if fullpath_set && !path.contains('/') {
                Err(ConfigError::FullpathOnTopFolder { path })
            } else if path.len() == 0 {
                Err(ConfigError::FilterAtDomainLevel)
            } else {
                match registered(
                    rules.0,
                    path,
                    FullFilterView {
                        localparts: f.localparts.deep_view(),
                        labels: f.labels.deep_view(),
                        options,
                    },
                ) {
                    Ok(c) => Ok((c, rules.1)),
                    Err(e) => Err(e),
                }
            }
        },
        SieveDomainConfig::SubDomainConfig(kids) => if kids.len() == 0 {
            Err(ConfigError::EmptySubConfig { path })
        } else if has_repeated_key(kids@) {
            Err(ConfigError::RepeatedFolderName { path })
        } else {
            walk_children(kids@, kids.len() as nat, path, rules)
        },
    }
}

/// The sub-folders walked in order; `n` is how many the folder has.
pub open spec fn walk_children(
    kids: Seq<(String, SieveDomainConfig)>,
    n: nat,
    path: Seq<char>,
    rules: (Rules, Rules),
) -> Result<(Rules, Rules), ConfigError<Seq<char>>>
    decreases kids, 0int,
{
    if kids.len() == 0 {
        Ok(rules)
    } else {
        let key = kids[0].0@;
        if key.len() == 0 {
            Err(ConfigError::EmptyFolderName { path })
        } else if path.len() == 0 && key == "self"@ {
            Err(ConfigError::SelfAtDomainLevel)
        } else if key == "self"@ && n == 1 {
            Err(ConfigError::SelfWithoutSubFolder { path })
        } else {
            match walk(kids[0].1, child_path(path, key), rules) {
                Ok(r) => walk_children(kids.drop_first(), n, path, r),
                Err(e) => Err(e),
            }
        }
    }
}

/// The generic rule a node adds after its own rule and its sub-folders'.
pub open spec fn own_generic(node: SieveDomainConfig, path: Seq<char>, rules: (Rules, Rules)) -> Result<
    (Rules, Rules),
    ConfigError<Seq<char>>,
> {
    if !wants_generic(node, path) {
        Ok(rules)
    } else {
        let options = node_options(node, path);
        let source = if options.fullpath {
            Some(path)
        } else {
            filename_spec(path)
        };
        match source {
            None => Err(ConfigError::NoFolderName { path }),
            Some(src) => {
                let lp = generic_localpart(src);
                let labels = match node {
                    SieveDomainConfig::FullFilter(f) => f.labels.deep_view(),
                    _ => None,
                };
                match registered(
                    rules.1,
                    path,
                    FullFilterView {
                        localparts: StringOrSeq::Many(seq![lp, lp + ".*"@]),
                        labels,
                        options,
                    },
                ) {
                    Ok(g) => Ok((rules.0, g)),
                    Err(e) => Err(e),
                }
            },
        }
    }
}

/// `d` holding the rules `rules`.
pub open spec fn with_rules(d: DomainView, rules: (Rules, Rules)) -> DomainView {
    DomainView {
        custom: GeneratorView { filters: rules.0, ..d.custom },
        generic: GeneratorView { filters: rules.1, ..d.generic },
    }
}

/// The rules after walking `node` at `path`, or the first error met.
pub open spec fn walk(node: SieveDomainConfig, path: Seq<char>, rules: (Rules, Rules)) -> Result<
    (Rules, Rules),
    ConfigError<Seq<char>>,
>
    decreases node, 1int,
{
    match dispatch(node, path, rules) {
        Ok(r) => own_generic(node, path, r),
        Err(e) => Err(e),
    }
}

impl DomainGenerator {
    /// Both generators hold well-formed rules, under the names `Custom` and
    /// `Generic`, with one domain folder, the generic chain made to follow
    /// the custom one.
    pub open spec fn wf(&self) -> bool {
        &&& rules_wf(self@.custom.filters)
        &&& rules_wf(self@.generic.filters)
        &&& self@ == domain_view(self@.custom.domain_folder, self.rules())
    }

    pub open spec fn rules(&self) -> (Rules, Rules) {
        (self@.custom.filters, self@.generic.filters)
    }

    /// Generators with no rules yet for `domain`; with
    /// `domain_as_first_folder`, every folder lies in `@<domain>/`.
    pub fn new(domain: &str, domain_as_first_folder: bool) -> (r: Self)
        ensures
            r.wf(),
            r@ == domain_view(domain_folder_of(domain@, domain_as_first_folder), (seq![], seq![])),
    {
        let domain_folder = if domain_as_first_folder {
            let mut f = String::from_str("@");
            f.append(domain);
            f.append("/");
            f
        } else {
            String::new()
        };
        let copy = domain_folder.clone();
        DomainGenerator {
            custom_filter_generator: FilterGenerator::new("Custom", copy, false),
            generic_filter_generator: FilterGenerator::new("Generic", domain_folder, true),
        }
    }

    /// Walks a domain's tree from its top, adding its rules. The tree must
    /// compile: [`check_config`] tells whether it does.
    pub fn generate(&mut self, sieve_domain_config: SieveDomainConfig)
        requires
            old(self).wf(),
            compiles(sieve_domain_config, old(self).rules()),
        ensures
            final(self).wf(),
            final(self)@ == with_rules(
                old(self)@,
                walk(sieve_domain_config, Seq::empty(), old(self).rules())->Ok_0,
            ),
    {
        let r = self._generate("", &sieve_domain_config);
        proof {
            reveal_strlit("");
        }
        assert(Seq::<char>::empty() =~= ""@);
        assert(r is Ok);
    }

    /// Walks `sub_config` at `path`.
    fn _generate(&mut self, path: &str, sub_config: &SieveDomainConfig) -> (r: Result<(), ConfigError>)
        requires
            old(self).wf(),
        ensures
            final(self).wf(),
            final(self)@.custom.domain_folder == old(self)@.custom.domain_folder,
            match walk(*sub_config, path@, old(self).rules()) {
                Ok(rules) => r is Ok && final(self).rules() == rules,
                Err(e) => r is Err && r->Err_0.deep_view() == e,
            },
        decreases sub_config,
    {
        let ghost node = *sub_config;
        let ghost start = self.rules();
        let default = if is_unknown(path) {
            FilterOptions::<bool> { generic: false, fullpath: false, mark_as_read: true }
        } else {
            FilterOptions::<bool> { generic: true, fullpath: false, mark_as_read: false }
        };
        let mut options = default;
        let mut labels: Option<Vec<(String, StringOrVec)>> = None;
        match sub_config {
            SieveDomainConfig::SimpleFilter(localparts) => {
                if path.unicode_len() == 0 {
                    return Err(ConfigError::FilterAtDomainLevel);
                }
                let f = FullFilter { localparts: localparts.duplicate(), labels: None, options };
                match self.custom_filter_generator.register(path, f) {
                    Ok(()) => {},
                    Err(e) => {
                        return Err(e);
                    },
                }
            },
            SieveDomainConfig::FullFilter(full_filter) => {
                let mut fullpath_set = false;
                if let Some(o) = full_filter.options {
                    options = o.unwrap_or_default(options);
                    fullpath_set = o.fullpath.is_some();
                }
                if is_unknown(path) {
                    options.generic = false;
                    options.mark_as_read = true;
                }
                if fullpath_set {
                    if !options.generic {
                        return Err(ConfigError::FullpathWithoutGeneric { path: path.to_owned() });
                    }
                    if !has_slash(path) {
                        return Err(ConfigError::FullpathOnTopFolder { path: path.to_owned() });
                    }
                }
                if path.unicode_len() == 0 {
                    return Err(ConfigError::FilterAtDomainLevel);
                }
                labels = copy_labels(&full_filter.labels);
                let f = FullFilter {
                    localparts: full_filter.localparts.duplicate(),
                    labels: copy_labels(&full_filter.labels),
                    options,
                };
                match self.custom_filter_generator.register(path, f) {
                    Ok(()) => {},
                    Err(e) => {
                        return Err(e);
                    },
                }
            },
            SieveDomainConfig::SubDomainConfig(kids_vec) => {
                let n = kids_vec.len();
                if n == 0 {
                    return Err(ConfigError::EmptySubConfig { path: path.to_owned() });
                }
                if repeated_key(kids_vec) {
                    return Err(ConfigError::RepeatedFolderName { path: path.to_owned() });
                }
                let ghost kids = kids_vec@;
                let self_key = String::from_str("self");
                let mut i: usize = 0;
                assert(kids.subrange(0, n as int) =~= kids);
                while i < n
                    invariant
                        self.wf(),
                        self@.custom.domain_folder == old(self)@.custom.domain_folder,
                        node == *sub_config,
                        start == old(self).rules(),
                        node == SieveDomainConfig::SubDomainConfig(*kids_vec),
                        kids == kids_vec@,
                        n == kids.len(),
                        n > 0,
                        !has_repeated_key(kids),
                        self_key@ == "self"@,
                        i <= n,
                        walk_children(kids, n as nat, path@, start) == walk_children(
                            kids.subrange(i as int, n as int),
                            n as nat,
                            path@,
                            self.rules(),
                        ),
                        options == (FilterOptions::<bool> {
                            generic: default.generic && !has_self_child(kids.subrange(0, i as int)),
                            ..default
                        }),
                        labels is None,
                    decreases n - i,
                {
                    let ghost rest = kids.subrange(i as int, n as int);
                    assert(rest.drop_first() =~= kids.subrange(i + 1, n as int));
                    assert(rest[0] == kids[i as int]);
                    assert(kids.subrange(0, i + 1) =~= kids.subrange(0, i as int).push(kids[i as int]));
                    let sub = &kids_vec[i].0;
                    let next_sub_config = &kids_vec[i].1;
                    if sub.unicode_len() == 0 {
                        return Err(ConfigError::EmptyFolderName { path: path.to_owned() });
                    }
                    let is_self = *sub == self_key;
                    let new_path = if path.unicode_len() == 0 {
                        if is_self {
                            return Err(ConfigError::SelfAtDomainLevel);
                        }
                        sub.clone()
                    } else if is_self {
                        if n == 1 {
                            return Err(ConfigError::SelfWithoutSubFolder { path: path.to_owned() });
                        }
                        options.generic = false;
                        path.to_owned()
                    } else {
                        let mut p = path.to_owned();
                        p.append("/");
                        p.append(sub.as_str());
                        p
                    };
                    proof {
                        lemma_has_self_push(kids.subrange(0, i as int), kids[i as int]);
                        assert(decreases_to!(node => *next_sub_config));
                    }
                    match self._generate(new_path.as_str(), next_sub_config) {
                        Ok(()) => {},
                        Err(e) => {
                            return Err(e);
                        },
                    }
                    i = i + 1;
                }
                assert(kids.subrange(n as int, n as int) =~= seq![]);
            },
        }
        assert(dispatch(node, path@, start) == Ok::<(Rules, Rules), ConfigError<Seq<char>>>(self.rules()));
        assert(wants_generic(node, path@) == (options.generic && path@.len() > 0));
        assert(wants_generic(node, path@) ==> options == node_options(node, path@));
        assert(labels.deep_view() == match node {
            SieveDomainConfig::FullFilter(f) => f.labels.deep_view(),
            _ => None,
        });
        /* Generic rule; the top of a domain has none. */
        if options.generic && path.unicode_len() > 0 {
            let source = if !options.fullpath {
                match filename_of(path) {
                    Some(s) => s,
                    None => {
                        return Err(ConfigError::NoFolderName { path: path.to_owned() });
                    },
                }
            } else {
                path.to_owned()
            };
            let prefix_generic_lps = path_to_prefix_generic_localpart(source.as_str());
            let mut wildcard = prefix_generic_lps.clone();
            wildcard.append(".*");
            let ghost (a, b) = (prefix_generic_lps@, wildcard@);
            let lps = vec![prefix_generic_lps, wildcard];
            assert(lps.deep_view() =~= seq![a, b]);
            let f = FullFilter { localparts: StringOrVec::Vec(lps), labels, options };
            assert(f.localparts.deep_view() == StringOrSeq::Many(
                seq![generic_localpart(source@), generic_localpart(source@) + ".*"@],
            ));
            match self.generic_filter_generator.register(path, f) {
                Ok(()) => {},
                Err(e) => {
                    return Err(e);
                },
            }
        }
        Ok(())
    }

    /// The custom rules, then the generic ones, then the catch-all.
    pub fn to_string(&self) -> (r: String)
        ensures
            r@ == domain_body(self@),
    {
        let mut r = self.custom_filter_generator.to_string();
        let after_chain = self.custom_filter_generator.count() > 0;
        let g = self.generic_filter_generator.to_string_with_unknown_after(after_chain);
        r.append(g.as_str());
        r
    }
}

/// A folder with a `self` sub-folder among two or more adds no generic rule
/// of its own, and neither does a folder whose resolved `generic` is false:
/// walking it leaves the rules as its own filter and its sub-folders left
/// them.
pub proof fn lemma_generic_suppression(node: SieveDomainConfig, path: Seq<char>, rules: (Rules, Rules))
    requires
        !node_options(node, path).generic || (node matches SieveDomainConfig::SubDomainConfig(kids)
            && kids.len() >= 2 && has_self_child(kids@)),
    ensures
        walk(node, path, rules) == dispatch(node, path, rules),
{
}

/// Whether a localpart list holds an empty string.
pub open spec fn has_empty_localpart(x: StringOrVec) -> bool {
    match x.deep_view() {
        StringOrSeq::Many(v) => exists|i: int| 0 <= i < v.len() && v[i].len() == 0,
        StringOrSeq::One(_) => false,
    }
}

/// Whether a tree holds, at some depth, an empty set of sub-folders, a
/// `self` that is the only sub-folder, or a localpart list with an empty
/// string.
pub open spec fn has_fatal_node(node: SieveDomainConfig) -> bool
    decreases node, 1int,
{
    match node {
        SieveDomainConfig::SimpleFilter(lps) => has_empty_localpart(lps),
        SieveDomainConfig::FullFilter(f) => has_empty_localpart(f.localparts),
        SieveDomainConfig::SubDomainConfig(kids) => kids.len() == 0 || (kids.len() == 1
            && kids@[0].0@ == "self"@) || has_fatal_child(kids@),
    }
}

pub open spec fn has_fatal_child(kids: Seq<(String, SieveDomainConfig)>) -> bool
    decreases kids, 0int,
{
    kids.len() > 0 && (has_fatal_node(kids[0].1) || has_fatal_child(kids.drop_first()))
}

proof fn lemma_fatal_registration(
    filters: Rules,
    path: Seq<char>,
    f: FullFilterView<StringOrSeq, FilterOptions<bool>>,
)
    requires
        f.localparts matches StringOrSeq::Many(v) && exists|i: int| 0 <= i < v.len() && v[i].len() == 0,
    ensures
        registered(filters, path, f) is Err,
{
}

/// A tree that holds an empty set of sub-folders, a lone `self`, or a
/// localpart list with an empty string, at any depth, fails to compile:
/// walking it gives an error, whatever the path and the rules before.
pub proof fn lemma_fatal_tree_fails(node: SieveDomainConfig, path: Seq<char>, rules: (Rules, Rules))
    requires
        has_fatal_node(node),
    ensures
        walk(node, path, rules) is Err,
    decreases node, 1int,
{
    match node {
        SieveDomainConfig::SimpleFilter(lps) => {
            if path.len() > 0 {
                lemma_fatal_registration(
                    rules.0,
                    path,
                    FullFilterView {
                        localparts: lps.deep_view(),
                        labels: None,
                        options: default_options(path),
                    },
                );
            }
        },
        SieveDomainConfig::FullFilter(f) => {
            lemma_fatal_registration(
                rules.0,
                path,
                FullFilterView {
                    localparts: f.localparts.deep_view(),
                    labels: f.labels.deep_view(),
                    options: node_options(node, path),
                },
            );
        },
        SieveDomainConfig::SubDomainConfig(kids) => {
            if kids.len() > 0 && !(kids.len() == 1 && kids@[0].0@ == "self"@) {
                lemma_fatal_child_fails(kids@, kids.len() as nat, path, rules);
            }
        },
    }
}

proof fn lemma_fatal_child_fails(
    kids: Seq<(String, SieveDomainConfig)>,
    n: nat,
    path: Seq<char>,
    rules: (Rules, Rules),
)
    requires
        has_fatal_child(kids),
    ensures
        walk_children(kids, n, path, rules) is Err,
    decreases kids, 0int,
{
    let key = kids[0].0@;
    if key.len() > 0 && !(path.len() == 0 && key == "self"@) && !(key == "self"@ && n == 1) {
        let child = kids[0].1;
        if has_fatal_node(child) {
            lemma_fatal_tree_fails(child, child_path(path, key), rules);
        } else {
            match walk(child, child_path(path, key), rules) {
                Ok(r) => lemma_fatal_child_fails(kids.drop_first(), n, path, r),
                Err(_) => {},
            }
        }
    }
}

/// Nothing in the catch-all folder adds a generic rule of its own, whatever
/// a filter there sets: walking it leaves the rules as its own filter and
/// its sub-folders left them.
pub proof fn lemma_no_generic_under_unknown(node: SieveDomainConfig, path: Seq<char>, rules: (Rules, Rules))
    requires
        unknown_path(path),
    ensures
        walk(node, path, rules) == dispatch(node, path, rules),
{
}

/// The custom chain, then the generic chain, which opens with `elsif` only
/// after a non-empty custom chain, then the catch-all: an `else` where a
/// chain is open, the bare actions where both sets of rules are empty.
pub open spec fn domain_body(d: DomainView) -> Seq<char> {
    let after_chain = d.custom.filters.len() > 0;
    rendered(d.custom) + rendered(reopened(d.generic, after_chain)) + unknown_branch(
        after_chain || d.generic.filters.len() > 0,
    )
}

/// The text of one domain's rules, or the first error of its walk.
pub open spec fn domain_text(
    domain: Seq<char>,
    config: SieveDomainConfig,
    domain_as_first_folder: bool,
) -> Result<Seq<char>, ConfigError<Seq<char>>> {
    match walk(config, Seq::empty(), (seq![], seq![])) {
        Ok(rules) => {
            let d = domain_view(domain_folder_of(domain, domain_as_first_folder), rules);
            Ok(domain_body(d))
        },
        Err(e) => Err(e),
    }
}

/// A domain's rules inside the branch that tests the envelope's domain.
pub open spec fn domain_branch(domain: Seq<char>, first: bool, body: Seq<char>) -> Seq<char> {
    if first {
        "\n# @"@ + domain + "\nif"@ + " envelope :domain :is \"to\" \""@ + domain + "\" {"@
            + indented(body) + "\n}"@
    } else {
        "\n# @"@ + domain + " elsif"@ + " envelope :domain :is \"to\" \""@ + domain + "\" {"@
            + indented(body) + "\n}"@
    }
}

/// The branches of all the domains in order, or the first error.
pub open spec fn domains_text(ds: Seq<(String, SieveDomainConfig, bool)>) -> Result<
    Seq<char>,
    ConfigError<Seq<char>>,
>
    decreases ds.len(),
{
    if ds.len() == 0 {
        Ok(Seq::empty())
    } else {
        match domains_text(ds.drop_last()) {
            Ok(t) => match domain_text(ds.last().0@, ds.last().1, ds.last().2) {
                Ok(b) => Ok(t + domain_branch(ds.last().0@, ds.len() == 1, b)),
                Err(e) => Err(e),
            },
            Err(e) => Err(e),
        }
    }
}

/// Whether a domain's tree compiles: the first error of its walk, if any.
pub fn check_config(config: &SieveDomainConfig) -> (r: Result<(), ConfigError>)
    ensures
        match walk(*config, Seq::empty(), (seq![], seq![])) {
            Ok(_) => r is Ok,
            Err(e) => r is Err && r->Err_0.deep_view() == e,
        },
{
    let mut g = DomainGenerator::new("", false);
    let r = g._generate("", config);
    proof {
        reveal_strlit("");
    }
    assert(Seq::<char>::empty() =~= ""@);
    r
}

/// One domain's branch; `first` opens the chain of branches.
fn domain_script(domain: &str, config: SieveDomainConfig, domain_as_first_folder: bool, first: bool) -> (r: Result<String, ConfigError>)
    ensures
        match domain_text(domain@, config, domain_as_first_folder) {
            Ok(b) => r is Ok && r->Ok_0@ == domain_branch(domain@, first, b),
            Err(e) => r is Err && r->Err_0.deep_view() == e,
        },
{
    match check_config(&config) {
        Ok(()) => {},
        Err(e) => {
            return Err(e);
        },
    }
    let mut g = DomainGenerator::new(domain, domain_as_first_folder);
    g.generate(config);
    let body = g.to_string();
    let mut b = String::from_str("\n# @");
    b.append(domain);
    if first {
        b.append("\nif");
    } else {
        b.append(" elsif");
    }
    b.append(" envelope :domain :is \"to\" \"");
    b.append(domain);
    b.append("\" {");
    b.append(code_block(body.as_str()).as_str());
    b.append("\n}");
    Ok(b)
}

/// The whole script: `prefix`, then one branch per domain, in order. Each
/// domain comes with its tree and whether its domain is its first folder.
pub fn sieve_script(prefix: &str, domains: Vec<(String, SieveDomainConfig, bool)>) -> (r: Result<
    String,
    ConfigError,
>)
    ensures
        match domains_text(domains@) {
            Ok(t) => r is Ok && r->Ok_0@ == prefix@ + t,
            Err(e) => r is Err && r->Err_0.deep_view() == e,
        },
{
    let ghost ds = domains@;
    let n = domains.len();
    let mut rest = domains;
    let mut text = prefix.to_owned();
    let mut i: usize = 0;
    assert(ds.take(0) =~= seq![]);
    while rest.len() > 0
        invariant
            i + rest.len() == n,
            ds == domains@,
            n == ds.len(),
            rest@ == ds.subrange(i as int, n as int),
            domains_text(ds.take(i as int)) is Ok,
            text@ == prefix@ + domains_text(ds.take(i as int))->Ok_0,
        decreases rest.len(),
    {
        let ghost before = rest@;
        let (domain, config, domain_as_first_folder) = rest.remove(0);
        assert(rest@ =~= ds.subrange(i + 1, n as int));
        assert(before[0] == ds[i as int]);
        assert(ds.take(i + 1).drop_last() =~= ds.take(i as int));
        let b = match domain_script(domain.as_str(), config, domain_as_first_folder, i == 0) {
            Ok(b) => b,
            Err(e) => {
                proof {
                    assert(ds.take(i + 1).last() == ds[i as int]);
                    assert(domains_text(ds.take(i + 1)) == Err::<Seq<char>, ConfigError<Seq<char>>>(e.deep_view()));
                    lemma_domains_text_err(ds, i as int + 1);
                }
                return Err(e);
            },
        };
        assert(ds.take(i + 1).last() == ds[i as int]);
        text.append(b.as_str());
        i = i + 1;
    }
    assert(ds.take(n as int) =~= ds);
    Ok(text)
}

} // verus!
