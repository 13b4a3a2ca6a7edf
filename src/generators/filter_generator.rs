//! One ordered set of rules, keyed by folder path, and its text.
use crate::common::{
    blank, has_blank, is_blank, code_block, copy_labels, emptiness, indented, is_unknown, normalized, unknown_path, ConfigError,
    FilterOptions, FullFilter, FullFilterView, StringOrSeq, StringOrVec,
};
use crate::sorted::{
    lemma_put_pairs, has_key, keys_ascending, seq_lt, lemma_lt_irreflexive, lemma_lt_total, lemma_prefix_lt, lemma_put_ascending, put,
    put_sorted,
};
use vstd::prelude::*;
use vstd::string::*;

verus! {

/// A rule ready for its text: localparts, labels ordered by name, and
/// resolved options.
pub type EntryView = FullFilterView<Seq<Seq<char>>, FilterOptions<bool>>;

/// What a [`FilterGenerator`] holds: its rules ordered by path.
pub struct GeneratorView {
    pub name: Seq<char>,
    pub domain_folder: Seq<char>,
    pub filters: Seq<(Seq<char>, EntryView)>,
    pub begin_with_else: bool,
}

/// The rules of one kind (custom or generic) for one domain.
pub struct FilterGenerator {
    name: String,
    domain_folder: String,
    filters: Vec<(String, FullFilter<Vec<String>, FilterOptions<bool>>)>,
    begin_with_else: bool,
}

impl View for FilterGenerator {
    type V = GeneratorView;

    closed spec fn view(&self) -> GeneratorView {
        GeneratorView {
            name: self.name@,
            domain_folder: self.domain_folder@,
            filters: self.filters.deep_view(),
            begin_with_else: self.begin_with_else,
        }
    }
}

/// The labels checked one by one and put in order of name, after those of
/// `acc`; or the error of the first label that is wrong.
pub open spec fn checked_labels(
    ls: Seq<(Seq<char>, StringOrSeq)>,
    acc: Seq<(Seq<char>, Seq<Seq<char>>)>,
) -> Result<Seq<(Seq<char>, Seq<Seq<char>>)>, ConfigError<Seq<char>>>
    decreases ls.len(),
{
    if ls.len() == 0 {
        Ok(acc)
    } else if ls[0].0.len() == 0 {
        Err(ConfigError::EmptyString { name: "label"@ })
    } else if blank(ls[0].0) {
        Err(ConfigError::BlankString { name: "label"@ })
    } else {
        match emptiness(ls[0].1, "label keywords"@) {
            Some(e) => Err(e),
            None => if has_blank(normalized(ls[0].1)) {
                Err(ConfigError::BlankString { name: "label keywords"@ })
            } else {
                checked_labels(ls.drop_first(), put(acc, ls[0].0, normalized(ls[0].1)))
            },
        }
    }
}

/// The rule that a filter becomes, or the error of its first wrong value.
pub open spec fn entry_of(f: FullFilterView<StringOrSeq, FilterOptions<bool>>) -> Result<
    EntryView,
    ConfigError<Seq<char>>,
> {
    match emptiness(f.localparts, "localparts"@) {
        Some(e) => Err(e),
        None => match f.labels {
            None => Ok(
                FullFilterView {
                    localparts: normalized(f.localparts),
                    labels: None,
                    options: f.options,
                },
            ),
            Some(ls) => match checked_labels(ls, seq![]) {
                Ok(l) => Ok(
                    FullFilterView {
                        localparts: normalized(f.localparts),
                        labels: Some(l),
                        options: f.options,
                    },
                ),
                Err(e) => Err(e),
            },
        },
    }
}

/// The rules after registering `f` under `path`: an empty single localpart
/// registers nothing, and a path registers once.
pub open spec fn registered(
    filters: Seq<(Seq<char>, EntryView)>,
    path: Seq<char>,
    f: FullFilterView<StringOrSeq, FilterOptions<bool>>,
) -> Result<Seq<(Seq<char>, EntryView)>, ConfigError<Seq<char>>> {
    if f.localparts is One && f.localparts->One_0.len() == 0 {
        Ok(filters)
    } else if exists|i: int| 0 <= i < filters.len() && filters[i].0 == path {
        Err(ConfigError::DuplicatePath { path })
    } else {
        match entry_of(f) {
            Ok(e) => Ok(put(filters, path, e)),
            Err(e) => Err(e),
        }
    }
}

/// A label with a name and keywords, none of them empty.
pub open spec fn label_wf(l: (Seq<char>, Seq<Seq<char>>)) -> bool {
    &&& l.0.len() > 0
    &&& l.1.len() > 0
    &&& forall|j: int| 0 <= j < l.1.len() ==> #[trigger] l.1[j].len() > 0
}

/// Labels ordered by name, each name once, each label well formed.
pub open spec fn labels_wf(ls: Seq<(Seq<char>, Seq<Seq<char>>)>) -> bool {
    &&& keys_ascending(ls)
    &&& forall|i: int| 0 <= i < ls.len() ==> label_wf(#[trigger] ls[i])
}

/// A rule with localparts, none of them empty, and well-formed labels.
pub open spec fn entry_wf(e: EntryView) -> bool {
    &&& e.localparts.len() > 0
    &&& forall|i: int| 0 <= i < e.localparts.len() ==> #[trigger] e.localparts[i].len() > 0
    &&& match e.labels {
        Some(ls) => labels_wf(ls),
        None => true,
    }
}

/// Rules hold each path once, in ascending order, each rule well formed.
pub open spec fn rules_wf(filters: Seq<(Seq<char>, EntryView)>) -> bool {
    &&& keys_ascending(filters)
    &&& forall|i: int| 0 <= i < filters.len() ==> entry_wf(#[trigger] filters[i].1)
}

proof fn lemma_normalized_wf(x: StringOrSeq, name: Seq<char>)
    requires
        emptiness(x, name) is None,
    ensures
        normalized(x).len() > 0,
        forall|i: int| 0 <= i < normalized(x).len() ==> #[trigger] normalized(x)[i].len() > 0,
{
}

proof fn lemma_checked_labels_wf(
    ls: Seq<(Seq<char>, StringOrSeq)>,
    acc: Seq<(Seq<char>, Seq<Seq<char>>)>,
)
    requires
        labels_wf(acc),
        checked_labels(ls, acc) is Ok,
    ensures
        labels_wf(checked_labels(ls, acc)->Ok_0),
    decreases ls.len(),
{
    if ls.len() > 0 {
        let l = (ls[0].0, normalized(ls[0].1));
        lemma_normalized_wf(ls[0].1, "label keywords"@);
        assert(label_wf(l));
        lemma_put_ascending(acc, l.0, l.1);
        lemma_put_pairs(acc, l.0, l.1);
        let next = put(acc, l.0, l.1);
        assert forall|i: int| 0 <= i < next.len() implies label_wf(#[trigger] next[i]) by {
            if next[i] != (l.0, l.1) {
                let j = choose|j: int| 0 <= j < acc.len() && acc[j] == next[i];
                assert(label_wf(acc[j]));
            }
        }
        lemma_checked_labels_wf(ls.drop_first(), next);
    }
}

/// A filter that can be registered becomes a well-formed rule.
proof fn lemma_entry_wf(f: FullFilterView<StringOrSeq, FilterOptions<bool>>)
    requires
        entry_of(f) is Ok,
    ensures
        entry_wf(entry_of(f)->Ok_0),
{
    lemma_normalized_wf(f.localparts, "localparts"@);
    if let Some(ls) = f.labels {
        lemma_checked_labels_wf(ls, seq![]);
    }
}

/// Putting a well-formed rule keeps the rules well formed.
proof fn lemma_put_rule_wf(filters: Seq<(Seq<char>, EntryView)>, path: Seq<char>, e: EntryView)
    requires
        rules_wf(filters),
        entry_wf(e),
    ensures
        rules_wf(put(filters, path, e)),
{
    lemma_put_ascending(filters, path, e);
    lemma_put_pairs(filters, path, e);
    let next = put(filters, path, e);
    assert forall|i: int| 0 <= i < next.len() implies entry_wf(#[trigger] next[i].1) by {
        if next[i] != (path, e) {
            let j = choose|j: int| 0 <= j < filters.len() && filters[j] == next[i];
            assert(entry_wf(filters[j].1));
        }
    }
}

/// The JSON text of a list of strings, as `serde_json` writes it.
pub uninterp spec fn json_strings(v: Seq<Seq<char>>) -> Seq<char>;

/// Relies on `serde_json::to_string` on a list of strings; the result depends
/// on the strings alone. Serialising strings cannot fail (it fails only for
/// a failing `Serialize` impl or a map with keys that are not strings).
#[verifier::external_body]
fn to_json(v: &Vec<String>) -> (r: String)
    ensures
        r@ == json_strings(v.deep_view()),
{
    serde_json::to_string(v).unwrap()
}

/// The pieces of `s` between slashes, empty ones included.
pub open spec fn split_slash(s: Seq<char>) -> Seq<Seq<char>>
    decreases s.len(),
{
    if s.len() == 0 {
        seq![Seq::empty()]
    } else {
        let p = split_slash(s.drop_last());
        if s.last() == '/' {
            p.push(Seq::empty())
        } else {
            p.drop_last().push(p.last().push(s.last()))
        }
    }
}

/// The folder reached after the folders `segs`, each joined to the one
/// before by a slash (a leading empty folder is skipped).
pub open spec fn cumulated(segs: Seq<Seq<char>>) -> Seq<char>
    decreases segs.len(),
{
    if segs.len() == 0 {
        Seq::empty()
    } else {
        let c = cumulated(segs.drop_last());
        if c.len() == 0 {
            segs.last()
        } else {
            c + "/"@ + segs.last()
        }
    }
}

/// One `fileinto` for each folder from the top one down.
pub open spec fn fileinto_lines(domain_folder: Seq<char>, segs: Seq<Seq<char>>) -> Seq<char>
    decreases segs.len(),
{
    if segs.len() == 0 {
        Seq::empty()
    } else {
        fileinto_lines(domain_folder, segs.drop_last()) + "\nfileinto \""@ + domain_folder
            + cumulated(segs) + "\";"@
    }
}

pub open spec fn fileinto_chain(domain_folder: Seq<char>, path: Seq<char>) -> Seq<char> {
    fileinto_lines(domain_folder, split_slash(path))
}

pub open spec fn if_header() -> Seq<char> {
    "\nif header :contains [\"from\",\"subject\"] "@
}

/// One conditional per label, in order of name.
pub open spec fn label_lines(ls: Seq<(Seq<char>, Seq<Seq<char>>)>) -> Seq<char>
    decreases ls.len(),
{
    if ls.len() == 0 {
        Seq::empty()
    } else {
        label_lines(ls.drop_last()) + if_header() + json_strings(ls.last().1) + " {"@ + indented(
            "\nfileinto \""@ + ls.last().0 + "\";"@,
        ) + "\n}"@
    }
}

pub open spec fn labels_of(e: EntryView) -> Seq<(Seq<char>, Seq<Seq<char>>)> {
    match e.labels {
        Some(l) => l,
        None => seq![],
    }
}

/// Marks as read; outside the catch-all folder, also files into `unread`.
pub open spec fn mark_read_lines(path: Seq<char>) -> Seq<char> {
    if unknown_path(path) {
        "\naddflag \"\\\\Seen\";"@
    } else {
        "\naddflag \"\\\\Seen\";"@ + "\nfileinto \"unread\";"@
    }
}

pub open spec fn put_all(s: Seq<(Seq<char>, ())>, ks: Seq<Seq<char>>) -> Seq<(Seq<char>, ())>
    decreases ks.len(),
{
    if ks.len() == 0 {
        s
    } else {
        put(put_all(s, ks.drop_last()), ks.last(), ())
    }
}

pub open spec fn keyword_pairs(ls: Seq<(Seq<char>, Seq<Seq<char>>)>) -> Seq<(Seq<char>, ())>
    decreases ls.len(),
{
    if ls.len() == 0 {
        seq![]
    } else {
        put_all(keyword_pairs(ls.drop_last()), ls.last().1)
    }
}

/// The keywords of all the labels, each once, in order.
pub open spec fn all_keywords(ls: Seq<(Seq<char>, Seq<Seq<char>>)>) -> Seq<Seq<char>> {
    keyword_pairs(ls).map_values(|p: (Seq<char>, ())| p.0)
}

/// Labels and marking as read, composed: with several labels the label
/// conditionals are wrapped in one on all their keywords, so that the
/// `else` that marks as read applies when none matched.
pub open spec fn label_logic(path: Seq<char>, e: EntryView) -> Seq<char> {
    let ls = labels_of(e);
    let lt = label_lines(ls);
    if !e.options.mark_as_read {
        lt
    } else if lt.len() == 0 {
        mark_read_lines(path)
    } else {
        let kws = if ls.len() > 1 {
            all_keywords(ls)
        } else {
            seq![]
        };
        if kws.len() > 0 {
            if_header() + json_strings(kws) + " {"@ + indented(lt) + "\n}"@ + " else {"@ + indented(
                mark_read_lines(path),
            ) + "\n}"@
        } else {
            lt + " else {"@ + indented(mark_read_lines(path)) + "\n}"@
        }
    }
}

pub open spec fn branch_head(g: GeneratorView, first: bool) -> Seq<char> {
    if first {
        if g.begin_with_else {
            "\n# "@ + g.name + " filters\n"@ + "els"@ + "if"@
        } else {
            "\n# "@ + g.name + " filters\n"@ + "if"@
        }
    } else {
        " elsif"@
    }
}

/// The conditional branch of one rule.
pub open spec fn branch_text(g: GeneratorView, p: (Seq<char>, EntryView), first: bool) -> Seq<
    char,
> {
    branch_head(g, first) + " envelope :localpart :matches \"to\" "@ + json_strings(
        p.1.localparts,
    ) + " {"@ + indented(label_logic(p.0, p.1)) + indented(fileinto_chain(g.domain_folder, p.0))
        + "\n}"@
}

/// The branches in the order they are written: by descending path.
pub open spec fn emitted(g: GeneratorView) -> Seq<Seq<char>> {
    let n = g.filters.len();
    Seq::new(n, |k: int| branch_text(g, g.filters[n - 1 - k], k == 0))
}

pub open spec fn rendered(g: GeneratorView) -> Seq<char> {
    emitted(g).flatten()
}

/// The generator with its first branch opening an `elsif` or not.
pub open spec fn reopened(g: GeneratorView, after_chain: bool) -> GeneratorView {
    GeneratorView { begin_with_else: after_chain, ..g }
}

/// The catch-all actions: mark as read and file into `Unknown`.
pub open spec fn unknown_actions() -> Seq<char> {
    "\naddflag \"\\\\Seen\";\nfileinto \"Unknown\";"@
}

/// The catch-all: the `else` that ends an open chain, or the actions alone
/// where no chain is open.
pub open spec fn unknown_branch(chain_open: bool) -> Seq<char> {
    if chain_open {
        " else {"@ + indented(unknown_actions()) + "\n}"@
    } else {
        unknown_actions()
    }
}

/// The pieces of a path between slashes.
fn split_folders(path: &str) -> (r: Vec<String>)
    ensures
        r.deep_view() == split_slash(path@),
{
    let n = path.unicode_len();
    let mut segs: Vec<String> = Vec::new();
    let mut start: usize = 0;
    let mut i: usize = 0;
    assert(path@.subrange(0, 0) =~= Seq::<char>::empty());
    assert(segs.deep_view().push(path@.subrange(0, 0)) =~= seq![Seq::<char>::empty()]);
    while i < n
        invariant
            n == path@.len(),
            start <= i <= n,
            segs.deep_view().push(path@.subrange(start as int, i as int)) == split_slash(
                path@.subrange(0, i as int),
            ),
        decreases n - i,
    {
        let c = path.get_char(i);
        let ghost before = segs.deep_view();
        let ghost p = split_slash(path@.subrange(0, i as int));
        assert(path@.subrange(0, i + 1).drop_last() =~= path@.subrange(0, i as int));
        if c == '/' {
            let piece = path.substring_char(start, i).to_owned();
            segs.push(piece);
            assert(segs.deep_view() =~= before.push(piece@));
            assert(path@.subrange(i + 1, i + 1) =~= Seq::<char>::empty());
            start = i + 1;
        } else {
            assert(path@.subrange(start as int, i + 1) =~= path@.subrange(start as int, i as int).push(c));
            assert(p.drop_last() =~= before);
        }
        i = i + 1;
    }
    let last = path.substring_char(start, n).to_owned();
    let ghost before = segs.deep_view();
    segs.push(last);
    assert(segs.deep_view() =~= before.push(last@));
    assert(path@.subrange(0, n as int) =~= path@);
    segs
}

/// The keys of pairs.
fn keys_of(v: &Vec<(String, ())>) -> (r: Vec<String>)
    ensures
        r.deep_view() == v.deep_view().map_values(|p: (Seq<char>, ())| p.0),
{
    let mut r: Vec<String> = Vec::new();
    let mut i: usize = 0;
    while i < v.len()
        invariant
            i <= v.len(),
            r.deep_view() =~= v.deep_view().take(i as int).map_values(|p: (Seq<char>, ())| p.0),
        decreases v.len() - i,
    {
        let ghost before = r.deep_view();
        let k = v[i].0.clone();
        r.push(k);
        assert(r.deep_view() =~= before.push(k@));
        assert(v.deep_view()[i as int].0 == k@);
        assert(v.deep_view().take(i + 1) =~= v.deep_view().take(i as int).push(v.deep_view()[i as int]));
        i = i + 1;
    }
    assert(v.deep_view().take(v.len() as int) =~= v.deep_view());
    r
}


/// Whether one of the strings is blank.
fn any_blank(v: &Vec<String>) -> (r: bool)
    ensures
        r == has_blank(v.deep_view()),
{
    let mut i: usize = 0;
    while i < v.len()
        invariant
            i <= v.len(),
            forall|j: int| 0 <= j < i ==> !blank(#[trigger] v.deep_view()[j]),
        decreases v.len() - i,
    {
        assert(v.deep_view()[i as int] == v[i as int]@);
        if is_blank(v[i].as_str()) {
            return true;
        }
        i = i + 1;
    }
    false
}

/// Checks each label and its keywords, and orders the labels by name.
fn check_labels(ls: Vec<(String, StringOrVec)>) -> (r: Result<Vec<(String, Vec<String>)>, ConfigError>)
    ensures
        match checked_labels(ls.deep_view(), seq![]) {
            Ok(l) => r is Ok && r->Ok_0.deep_view() == l,
            Err(e) => r is Err && r->Err_0.deep_view() == e,
        },
{
    let mut rest = ls;
    let mut out: Vec<(String, Vec<String>)> = Vec::new();
    assert(out.deep_view() =~= seq![]);
    while rest.len() > 0
        invariant
            checked_labels(rest.deep_view(), out.deep_view()) == checked_labels(ls.deep_view(), seq![]),
        decreases rest.len(),
    {
        let ghost before = rest.deep_view();
        let (label, keywords) = rest.remove(0);
        assert(rest.deep_view() =~= before.drop_first());
        assert(before[0] == (label@, keywords.deep_view()));
        if label.unicode_len() == 0 {
            return Err(ConfigError::EmptyString { name: "label".to_owned() });
        }
        if is_blank(label.as_str()) {
            return Err(ConfigError::BlankString { name: "label".to_owned() });
        }
        let kws = match keywords.normalize("label keywords") {
            Ok(k) => k,
            Err(e) => {
                return Err(e);
            },
        };
        if any_blank(&kws) {
            return Err(ConfigError::BlankString { name: "label keywords".to_owned() });
        }
        put_sorted(&mut out, label, kws);
    }
    Ok(out)
}

/// The rule that a filter becomes, or the error of its first wrong value.
fn entry_from(full_filter: FullFilter<StringOrVec, FilterOptions<bool>>) -> (r: Result<
    FullFilter<Vec<String>, FilterOptions<bool>>,
    ConfigError,
>)
    ensures
        match entry_of(full_filter.deep_view()) {
            Ok(e) => r is Ok && r->Ok_0.deep_view() == e,
            Err(e) => r is Err && r->Err_0.deep_view() == e,
        },
{
    let ghost f = full_filter.deep_view();
    let FullFilter { localparts, labels, options } = full_filter;
    let localparts = match localparts.normalize("localparts") {
        Ok(v) => v,
        Err(e) => {
            return Err(e);
        },
    };
    let labels = match labels {
        None => None,
        Some(ls) => match check_labels(ls) {
            Ok(l) => Some(l),
            Err(e) => {
                return Err(e);
            },
        },
    };
    let entry = FullFilter { localparts, labels, options };
    assert(entry_of(f) == Ok::<EntryView, ConfigError<Seq<char>>>(entry.deep_view()));
    Ok(entry)
}

/// The lines that mark as read.
fn mark_read(path: &str) -> (r: String)
    ensures
        r@ == mark_read_lines(path@),
{
    let mut m = String::from_str("\naddflag \"\\\\Seen\";");
    if !is_unknown(path) {
        m.append("\nfileinto \"unread\";");
    }
    m
}

/// The keywords of all the labels, each once, in order.
fn collect_keywords(ls: &Vec<(String, Vec<String>)>) -> (r: Vec<String>)
    ensures
        r.deep_view() == all_keywords(ls.deep_view()),
{
    let mut pairs: Vec<(String, ())> = Vec::new();
    assert(pairs.deep_view() =~= seq![]);
    let mut i: usize = 0;
    while i < ls.len()
        invariant
            i <= ls.len(),
            pairs.deep_view() == keyword_pairs(ls.deep_view().take(i as int)),
        decreases ls.len() - i,
    {
        let kws = &ls[i].1;
        let ghost base = pairs.deep_view();
        let mut j: usize = 0;
        assert(kws.deep_view().take(0) =~= seq![]);
        while j < kws.len()
            invariant
                j <= kws.len(),
                pairs.deep_view() == put_all(base, kws.deep_view().take(j as int)),
            decreases kws.len() - j,
        {
            put_sorted(&mut pairs, kws[j].clone(), ());
            assert(kws.deep_view().take(j + 1).drop_last() =~= kws.deep_view().take(j as int));
            j = j + 1;
        }
        assert(kws.deep_view().take(kws.len() as int) =~= kws.deep_view());
        assert(ls.deep_view().take(i + 1).drop_last() =~= ls.deep_view().take(i as int));
        i = i + 1;
    }
    assert(ls.deep_view().take(ls.len() as int) =~= ls.deep_view());
    keys_of(&pairs)
}

/// One conditional per label, in order.
fn label_conditionals(ls: &Vec<(String, Vec<String>)>) -> (r: String)
    ensures
        r@ == label_lines(ls.deep_view()),
{
    let mut text = String::new();
    let mut i: usize = 0;
    while i < ls.len()
        invariant
            i <= ls.len(),
            text@ == label_lines(ls.deep_view().take(i as int)),
        decreases ls.len() - i,
    {
        let mut inner = String::from_str("\nfileinto \"");
        inner.append(ls[i].0.as_str());
        inner.append("\";");
        text.append("\nif header :contains [\"from\",\"subject\"] ");
        text.append(to_json(&ls[i].1).as_str());
        text.append(" {");
        text.append(code_block(inner.as_str()).as_str());
        text.append("\n}");
        assert(ls.deep_view().take(i + 1).drop_last() =~= ls.deep_view().take(i as int));
        i = i + 1;
    }
    assert(ls.deep_view().take(ls.len() as int) =~= ls.deep_view());
    text
}

/// Labels and marking as read, composed.
fn label_block(path: &str, entry: &FullFilter<Vec<String>, FilterOptions<bool>>) -> (r: String)
    ensures
        r@ == label_logic(path@, entry.deep_view()),
{
    let labels = match &entry.labels {
        Some(ls) => label_conditionals(ls),
        None => String::new(),
    };
    if !entry.options.mark_as_read {
        return labels;
    }
    let mark = mark_read(path);
    if labels.as_str().is_empty() {
        return mark;
    }
    let all_keywords = match &entry.labels {
        Some(ls) => if ls.len() > 1 {
            collect_keywords(ls)
        } else {
            Vec::new()
        },
        None => Vec::new(),
    };
    let mut r = if all_keywords.len() > 0 {
        let mut w = String::from_str("\nif header :contains [\"from\",\"subject\"] ");
        w.append(to_json(&all_keywords).as_str());
        w.append(" {");
        w.append(code_block(labels.as_str()).as_str());
        w.append("\n}");
        w
    } else {
        labels
    };
    r.append(" else {");
    r.append(code_block(mark.as_str()).as_str());
    r.append("\n}");
    r
}

proof fn lemma_keyword_pairs_nonempty(ls: Seq<(Seq<char>, Seq<Seq<char>>)>)
    requires
        ls.len() > 0,
        ls.last().1.len() > 0,
    ensures
        keyword_pairs(ls).len() > 0,
{
    let ks = ls.last().1;
    let s = put_all(keyword_pairs(ls.drop_last()), ks.drop_last());
    assert(put_all(keyword_pairs(ls.drop_last()), ks) == put(s, ks.last(), ()));
    let r = put(s, ks.last(), ());
    if s.len() > 0 && s[0].0 != ks.last() && !seq_lt(ks.last(), s[0].0) {
        assert(r == seq![s[0]] + put(s.drop_first(), ks.last(), ()));
    }
}

/// How labels and marking as read compose, for labels that each have
/// keywords: without marking as read, the label conditionals alone; with it,
/// and no label, the marking alone; with one label, its conditional and an
/// `else` that marks as read; with several, their conditionals wrapped in
/// one on all their keywords, whose `else` marks as read.
pub proof fn lemma_label_composition(path: Seq<char>, e: EntryView)
    requires
        forall|i: int| 0 <= i < labels_of(e).len() ==> (#[trigger] labels_of(e)[i]).1.len() > 0,
    ensures
        ({
            let ls = labels_of(e);
            let mark = mark_read_lines(path);
            &&& !e.options.mark_as_read ==> label_logic(path, e) == label_lines(ls)
            &&& e.options.mark_as_read && ls.len() == 0 ==> label_logic(path, e) == mark
            &&& e.options.mark_as_read && ls.len() == 1 ==> label_logic(path, e) == label_lines(ls)
                + " else {"@ + indented(mark) + "\n}"@
            &&& e.options.mark_as_read && ls.len() >= 2 ==> all_keywords(ls).len() > 0
                && label_logic(path, e) == if_header() + json_strings(all_keywords(ls)) + " {"@
                + indented(label_lines(ls)) + "\n}"@ + " else {"@ + indented(mark) + "\n}"@
        }),
{
    let ls = labels_of(e);
    reveal_strlit("\n}");
    if ls.len() > 0 {
        assert(label_lines(ls).len() > 0);
        assert(ls.last() == ls[ls.len() - 1]);
        lemma_keyword_pairs_nonempty(ls);
    }
}

/// The branch of a sub-folder's rule is written before the branch of its
/// folder's rule: where one path is the other followed by `/` and more, the
/// longer path's branch has the earlier place.
pub proof fn lemma_descendant_first(g: &FilterGenerator, i: int, j: int, rest: Seq<char>)
    requires
        g.wf(),
        0 <= i < g@.filters.len(),
        0 <= j < g@.filters.len(),
        g@.filters[j].0 == g@.filters[i].0 + "/"@ + rest,
    ensures
        ({
            let n = g@.filters.len();
            &&& n - 1 - j < n - 1 - i
            &&& emitted(g@)[n - 1 - j] == branch_text(g@, g@.filters[j], j == n - 1)
            &&& emitted(g@)[n - 1 - i] == branch_text(g@, g@.filters[i], i == n - 1)
        }),
{
    let p = g@.filters[i].0;
    reveal_strlit("/");
    assert(p + "/"@ + rest =~= p + ("/"@ + rest));
    lemma_prefix_lt(p, "/"@ + rest);
    lemma_lt_irreflexive(p);
    if j < i {
        lemma_lt_total(g@.filters[j].0, p);
    }
}

impl FilterGenerator {
    /// Rules hold each path once, in ascending order, and are well formed.
    pub open spec fn wf(&self) -> bool {
        rules_wf(self@.filters)
    }

    /// An empty set of rules. `domain_folder` comes before every folder
    /// filed into; `begin_with_else` makes the first branch an `elsif`.
    pub fn new(name: &str, domain_folder: String, begin_with_else: bool) -> (r: FilterGenerator)
        ensures
            r.wf(),
            r@ == (GeneratorView {
                name: name@,
                domain_folder: domain_folder@,
                filters: seq![],
                begin_with_else,
            }),
    {
        let r = FilterGenerator {
            name: name.to_owned(),
            domain_folder,
            filters: Vec::new(),
            begin_with_else,
        };
        assert(r.filters.deep_view() =~= seq![]);
        r
    }

    /// How many rules there are.
    pub fn count(&self) -> (r: usize)
        ensures
            r == self@.filters.len(),
    {
        self.filters.len()
    }

    /// Registers `full_filter` under `path`, or gives the error that
    /// [`FilterGenerator::check`] gives; on an error nothing changes.
    pub(crate) fn register(
        &mut self,
        path: &str,
        full_filter: FullFilter<StringOrVec, FilterOptions<bool>>,
    ) -> (r: Result<(), ConfigError>)
        requires
            old(self).wf(),
            path@.len() > 0,
        ensures
            final(self).wf(),
            match registered(old(self)@.filters, path@, full_filter.deep_view()) {
                Ok(filters) => r is Ok && final(self)@ == (GeneratorView { filters, ..old(self)@ }),
                Err(e) => r is Err && r->Err_0.deep_view() == e && final(self)@ == old(self)@,
            },
    {
        if let StringOrVec::String(localpart) = &full_filter.localparts {
            if localpart.unicode_len() == 0 {
                assert(self@ == (GeneratorView { filters: self@.filters, ..self@ }));
                return Ok(());
            }
        }
        if has_key(&self.filters, path) {
            return Err(ConfigError::DuplicatePath { path: path.to_owned() });
        }
        let entry = match entry_from(full_filter) {
            Ok(e) => e,
            Err(e) => {
                return Err(e);
            },
        };
        proof {
            lemma_entry_wf(full_filter.deep_view());
            lemma_put_rule_wf(self@.filters, path@, entry.deep_view());
        }
        put_sorted(&mut self.filters, path.to_owned(), entry);
        Ok(())
    }

    /// Whether `full_filter` can be registered under `path`: a path
    /// registered already, an empty localpart list, an empty localpart,
    /// label or keyword list, or an empty keyword is an error. A single empty
    /// localpart registers nothing, and is no error.
    pub fn check(&self, path: &str, full_filter: &FullFilter<StringOrVec, FilterOptions<bool>>) -> (r:
        Result<(), ConfigError>)
        ensures
            match registered(self@.filters, path@, full_filter.deep_view()) {
                Ok(_) => r is Ok,
                Err(e) => r is Err && r->Err_0.deep_view() == e,
            },
    {
        if let StringOrVec::String(localpart) = &full_filter.localparts {
            if localpart.unicode_len() == 0 {
                return Ok(());
            }
        }
        if has_key(&self.filters, path) {
            return Err(ConfigError::DuplicatePath { path: path.to_owned() });
        }
        let copy = FullFilter {
            localparts: full_filter.localparts.duplicate(),
            labels: copy_labels(&full_filter.labels),
            options: full_filter.options,
        };
        assert(copy.deep_view() == full_filter.deep_view());
        match entry_from(copy) {
            Ok(_) => Ok(()),
            Err(e) => Err(e),
        }
    }

    /// Registers `full_filter` under `path`; a single empty localpart
    /// registers nothing. The filter must pass [`FilterGenerator::check`].
    pub fn generate(&mut self, path: &str, full_filter: FullFilter<StringOrVec, FilterOptions<bool>>)
        requires
            old(self).wf(),
            path@.len() > 0,
            registered(old(self)@.filters, path@, full_filter.deep_view()) is Ok,
        ensures
            final(self).wf(),
            final(self)@ == (GeneratorView {
                filters: registered(old(self)@.filters, path@, full_filter.deep_view())->Ok_0,
                ..old(self)@
            }),
    {
        let r = self.register(path, full_filter);
        assert(r is Ok);
    }

    /// The `fileinto` lines of a path, from its top folder down.
    fn fileinto_chain(&self, path: &str) -> (r: String)
        ensures
            r@ == fileinto_chain(self@.domain_folder, path@),
    {
        let segs = split_folders(path);
        let mut cum = String::new();
        let mut text = String::new();
        let mut k: usize = 0;
        assert(segs.deep_view().take(0) =~= seq![]);
        while k < segs.len()
            invariant
                k <= segs.len(),
                cum@ == cumulated(segs.deep_view().take(k as int)),
                text@ == fileinto_lines(self@.domain_folder, segs.deep_view().take(k as int)),
            decreases segs.len() - k,
        {
            assert(segs.deep_view().take(k + 1).drop_last() =~= segs.deep_view().take(k as int));
            if cum.as_str().is_empty() {
                cum = segs[k].clone();
            } else {
                cum.append("/");
                cum.append(segs[k].as_str());
            }
            text.append("\nfileinto \"");
            text.append(self.domain_folder.as_str());
            text.append(cum.as_str());
            text.append("\";");
            k = k + 1;
        }
        assert(segs.deep_view().take(segs.len() as int) =~= segs.deep_view());
        text
    }

    /// The branch of the rule at `idx`; `after_chain` makes a first branch
    /// an `elsif`.
    fn branch(&self, idx: usize, first: bool, after_chain: bool) -> (r: String)
        requires
            idx < self@.filters.len(),
        ensures
            r@ == branch_text(reopened(self@, after_chain), self@.filters[idx as int], first),
    {
        let path = &self.filters[idx].0;
        let entry = &self.filters[idx].1;
        let mut s = if first {
            let mut h = String::from_str("\n# ");
            h.append(self.name.as_str());
            h.append(" filters\n");
            if after_chain {
                h.append("els");
            }
            h.append("if");
            h
        } else {
            String::from_str(" elsif")
        };
        s.append(" envelope :localpart :matches \"to\" ");
        s.append(to_json(&entry.localparts).as_str());
        s.append(" {");
        let logic = label_block(path.as_str(), entry);
        s.append(code_block(logic.as_str()).as_str());
        let chain = self.fileinto_chain(path.as_str());
        s.append(code_block(chain.as_str()).as_str());
        s.append("\n}");
        s
    }

    /// The rules as a chain of conditional branches, the longest paths
    /// first; `after_chain` makes the first branch an `elsif`.
    fn render(&self, after_chain: bool) -> (r: String)
        ensures
            r@ == rendered(reopened(self@, after_chain)),
    {
        let ghost g = reopened(self@, after_chain);
        let n = self.filters.len();
        let mut result = String::new();
        let mut k: usize = 0;
        assert(emitted(g).take(0) =~= seq![]);
        while k < n
            invariant
                g == reopened(self@, after_chain),
                n == g.filters.len(),
                k <= n,
                result@ == emitted(g).take(k as int).flatten(),
            decreases n - k,
        {
            let b = self.branch(n - 1 - k, k == 0, after_chain);
            proof {
                assert(emitted(g).take(k + 1) =~= emitted(g).take(k as int).push(b@));
                emitted(g).take(k as int).lemma_flatten_push(b@);
            }
            result.append(b.as_str());
            k = k + 1;
        }
        assert(emitted(g).take(n as int) =~= emitted(g));
        result
    }

    /// The rules as a chain of conditional branches, the longest paths first.
    pub fn to_string(&self) -> (r: String)
        ensures
            r@ == rendered(self@),
    {
        let r = self.render(self.begin_with_else);
        assert(reopened(self@, self@.begin_with_else) == self@);
        r
    }

    /// The rules followed by the catch-all, as an `else` where a chain is
    /// open. `after_chain` says that the rules follow another non-empty
    /// chain, so that their first branch is an `elsif`.
    pub fn to_string_with_unknown_after(&self, after_chain: bool) -> (r: String)
        ensures
            r@ == rendered(reopened(self@, after_chain)) + unknown_branch(
                self@.filters.len() > 0 || after_chain,
            ),
    {
        let mut r = self.render(after_chain);
        let actions = "\naddflag \"\\\\Seen\";\nfileinto \"Unknown\";";
        if self.filters.len() > 0 || after_chain {
            r.append(" else {");
            r.append(code_block(actions).as_str());
            r.append("\n}");
        } else {
            r.append(actions);
        }
        r
    }

    /// The rules followed by the catch-all, their first branch opening as
    /// the generator was made to.
    pub fn to_string_with_unknown(&self) -> (r: String)
        ensures
            r@ == rendered(self@) + unknown_branch(self@.filters.len() > 0 || self@.begin_with_else),
    {
        let r = self.to_string_with_unknown_after(self.begin_with_else);
        assert(reopened(self@, self@.begin_with_else) == self@);
        r
    }
}

} // verus!
