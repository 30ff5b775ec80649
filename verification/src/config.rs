//! The configuration: the raw tables as the configuration file holds them, and
//! the compiled rules that the renamer works with.
use crate::rule::{regex_compiles, Rule};
use vstd::prelude::*;

verus! {

broadcast use vstd::string::group_string_axioms;

/// The configuration as the renamer uses it, with the path it was read from
/// (as text, for display).
#[derive(Clone, Debug, Default)]
pub struct Config {
    pub config: ConfigFile,
    pub cfg_path: Option<String>,
}

/// The delimiter between clients unless the file says otherwise.
pub fn default_delim_formatter() -> (res: String)
    ensures
        res@ == " "@,
{
    " ".to_string()
}

/// The client format unless the file says otherwise.
pub fn default_client_formatter() -> (res: String)
    ensures
        res@ == "{icon}"@,
{
    "{icon}".to_string()
}

/// The active client format unless the file says otherwise.
pub fn default_client_active_formatter() -> (res: String)
    ensures
        res@ == "*{icon}*"@,
{
    "*{icon}*".to_string()
}

/// The fullscreen client format unless the file says otherwise.
pub fn default_client_fullscreen_formatter() -> (res: String)
    ensures
        res@ == "[{icon}]"@,
{
    "[{icon}]".to_string()
}

/// The deduplicated client format unless the file says otherwise.
pub fn default_client_dup_formatter() -> (res: String)
    ensures
        res@ == "{icon}{counter_sup}"@,
{
    "{icon}{counter_sup}".to_string()
}

/// The deduplicated fullscreen client format unless the file says otherwise.
pub fn default_client_dup_fullscreen_formatter() -> (res: String)
    ensures
        res@ == "[{icon}]{delim}{icon}{counter_unfocused_sup}"@,
{
    "[{icon}]{delim}{icon}{counter_unfocused_sup}".to_string()
}

/// The deduplicated active client format unless the file says otherwise.
pub fn default_client_dup_active_formatter() -> (res: String)
    ensures
        res@ == "*{icon}*{delim}{icon}{counter_unfocused_sup}"@,
{
    "*{icon}*{delim}{icon}{counter_unfocused_sup}".to_string()
}

/// The format of a workspace without clients unless the file says otherwise.
pub fn default_workspace_empty_formatter() -> (res: String)
    ensures
        res@ == "{id}"@,
{
    "{id}".to_string()
}

/// The format of a workspace unless the file says otherwise.
pub fn default_workspace_formatter() -> (res: String)
    ensures
        res@ == "{id}:{delim}{clients}"@,
{
    "{id}:{delim}{clients}".to_string()
}

/// The class table unless the file has one: one `DEFAULT` entry.
pub fn default_class() -> (res: Vec<(String, String)>)
    ensures
        res@.len() == 1,
        res@[0].0@ == "DEFAULT"@,
        res@[0].1@ == "\u{f059} {class}"@,
{
    let mut res: Vec<(String, String)> = Vec::new();
    res.push(("DEFAULT".to_string(), "\u{f059} {class}".to_string()));
    res
}

/// The `[format]` table of the configuration file.
#[derive(Debug, Clone, PartialEq, Eq)]
pub struct ConfigFormatRaw {
    pub dedup: bool,
    pub dedup_inactive_fullscreen: bool,
    pub delim: String,
    pub workspace: String,
    pub workspace_empty: String,
    pub client: String,
    pub client_fullscreen: String,
    pub client_active: String,
    pub client_dup: String,
    pub client_dup_active: String,
    pub client_dup_fullscreen: String,
}

impl ConfigFormatRaw {
    /// Whether every entry has the value it takes when the file leaves it out.
    pub open spec fn is_default(&self) -> bool {
        &&& !self.dedup
        &&& !self.dedup_inactive_fullscreen
        &&& self.delim@ == " "@
        &&& self.workspace@ == "{id}:{delim}{clients}"@
        &&& self.workspace_empty@ == "{id}"@
        &&& self.client@ == "{icon}"@
        &&& self.client_fullscreen@ == "[{icon}]"@
        &&& self.client_active@ == "*{icon}*"@
        &&& self.client_dup@ == "{icon}{counter_sup}"@
        &&& self.client_dup_active@ == "*{icon}*{delim}{icon}{counter_unfocused_sup}"@
        &&& self.client_dup_fullscreen@ == "[{icon}]{delim}{icon}{counter_unfocused_sup}"@
    }
}

impl Default for ConfigFormatRaw {
    /// The `[format]` table of an empty file.
    fn default() -> (res: Self)
        ensures
            res.is_default(),
    {
        ConfigFormatRaw {
            dedup: false,
            dedup_inactive_fullscreen: false,
            delim: default_delim_formatter(),
            workspace: default_workspace_formatter(),
            workspace_empty: default_workspace_empty_formatter(),
            client: default_client_formatter(),
            client_fullscreen: default_client_fullscreen_formatter(),
            client_active: default_client_active_formatter(),
            client_dup: default_client_dup_formatter(),
            client_dup_active: default_client_dup_active_formatter(),
            client_dup_fullscreen: default_client_dup_fullscreen_formatter(),
        }
    }
}

/// The tables of the configuration file, each table's entries in the order
/// they were read: `(pattern, icon)` for the class tables, `(class pattern,
/// [(title pattern, icon)])` for the title tables, `(class pattern, title
/// pattern)` for `exclude`.
#[derive(Debug, Clone)]
pub struct ConfigFileRaw {
    pub class: Vec<(String, String)>,
    pub class_active: Vec<(String, String)>,
    pub initial_class: Vec<(String, String)>,
    pub initial_class_active: Vec<(String, String)>,
    pub title_in_class: Vec<(String, Vec<(String, String)>)>,
    pub title_in_class_active: Vec<(String, Vec<(String, String)>)>,
    pub title_in_initial_class: Vec<(String, Vec<(String, String)>)>,
    pub title_in_initial_class_active: Vec<(String, Vec<(String, String)>)>,
    pub initial_title_in_class: Vec<(String, Vec<(String, String)>)>,
    pub initial_title_in_class_active: Vec<(String, Vec<(String, String)>)>,
    pub initial_title_in_initial_class: Vec<(String, Vec<(String, String)>)>,
    pub initial_title_in_initial_class_active: Vec<(String, Vec<(String, String)>)>,
    pub exclude: Vec<(String, String)>,
    pub format: ConfigFormatRaw,
}

impl Default for ConfigFileRaw {
    /// Every table empty, the `[format]` table at its defaults.
    fn default() -> (res: Self)
        ensures
            res.class@.len() == 0,
            res.class_active@.len() == 0,
            res.initial_class@.len() == 0,
            res.initial_class_active@.len() == 0,
            res.title_in_class@.len() == 0,
            res.title_in_class_active@.len() == 0,
            res.title_in_initial_class@.len() == 0,
            res.title_in_initial_class_active@.len() == 0,
            res.initial_title_in_class@.len() == 0,
            res.initial_title_in_class_active@.len() == 0,
            res.initial_title_in_initial_class@.len() == 0,
            res.initial_title_in_initial_class_active@.len() == 0,
            res.exclude@.len() == 0,
            res.format.is_default(),
    {
        ConfigFileRaw {
            class: Vec::new(),
            class_active: Vec::new(),
            initial_class: Vec::new(),
            initial_class_active: Vec::new(),
            title_in_class: Vec::new(),
            title_in_class_active: Vec::new(),
            title_in_initial_class: Vec::new(),
            title_in_initial_class_active: Vec::new(),
            initial_title_in_class: Vec::new(),
            initial_title_in_class_active: Vec::new(),
            initial_title_in_initial_class: Vec::new(),
            initial_title_in_initial_class_active: Vec::new(),
            exclude: Vec::new(),
            format: ConfigFormatRaw::default(),
        }
    }
}

impl ConfigFileRaw {
    /// The tables of a configuration file with nothing in it: the `class`
    /// table holds its `DEFAULT` entry, every other table is empty.
    pub fn empty_file() -> (res: Self)
        ensures
            res.class@.len() == 1,
            res.class@[0].0@ == "DEFAULT"@,
            res.class@[0].1@ == "\u{f059} {class}"@,
            res.class_active@.len() == 0,
            res.initial_class@.len() == 0,
            res.initial_class_active@.len() == 0,
            res.title_in_class@.len() == 0,
            res.title_in_class_active@.len() == 0,
            res.title_in_initial_class@.len() == 0,
            res.title_in_initial_class_active@.len() == 0,
            res.initial_title_in_class@.len() == 0,
            res.initial_title_in_class_active@.len() == 0,
            res.initial_title_in_initial_class@.len() == 0,
            res.initial_title_in_initial_class_active@.len() == 0,
            res.exclude@.len() == 0,
            res.format.is_default(),
    {
        let mut raw = ConfigFileRaw::default();
        raw.class = default_class();
        raw
    }
}

/// The compiled tables the renamer works with.
#[derive(Clone, Debug, Default)]
pub struct ConfigFile {
    pub class: Vec<(Rule, String)>,
    pub class_active: Vec<(Rule, String)>,
    pub initial_class: Vec<(Rule, String)>,
    pub initial_class_active: Vec<(Rule, String)>,
    pub title_in_class: Vec<(Rule, Vec<(Rule, String)>)>,
    pub title_in_class_active: Vec<(Rule, Vec<(Rule, String)>)>,
    pub title_in_initial_class: Vec<(Rule, Vec<(Rule, String)>)>,
    pub title_in_initial_class_active: Vec<(Rule, Vec<(Rule, String)>)>,
    pub initial_title_in_class: Vec<(Rule, Vec<(Rule, String)>)>,
    pub initial_title_in_class_active: Vec<(Rule, Vec<(Rule, String)>)>,
    pub initial_title_in_initial_class: Vec<(Rule, Vec<(Rule, String)>)>,
    pub initial_title_in_initial_class_active: Vec<(Rule, Vec<(Rule, String)>)>,
    pub exclude: Vec<(Rule, Rule)>,
    pub format: ConfigFormatRaw,
}

// ---------------------------------------------------------------------------
// Compiling the tables
// ---------------------------------------------------------------------------

/// The `(pattern, icon)` entries whose pattern compiles, in order.
pub open spec fn compiled_icon_entries(entries: Seq<(String, String)>) -> Seq<(Seq<char>, Seq<char>)>
    decreases entries.len(),
{
    if entries.len() == 0 {
        seq![]
    } else {
        let rest = compiled_icon_entries(entries.drop_last());
        let e = entries.last();
        if regex_compiles(e.0@) {
            rest.push((e.0@, e.1@))
        } else {
            rest
        }
    }
}

/// The `(class pattern, titles)` entries whose class pattern compiles, in
/// order, each with the title entries whose pattern compiles.
pub open spec fn compiled_title_entries(entries: Seq<(String, Vec<(String, String)>)>) -> Seq<
    (Seq<char>, Seq<(Seq<char>, Seq<char>)>),
>
    decreases entries.len(),
{
    if entries.len() == 0 {
        seq![]
    } else {
        let rest = compiled_title_entries(entries.drop_last());
        let e = entries.last();
        if regex_compiles(e.0@) {
            rest.push((e.0@, compiled_icon_entries(e.1@)))
        } else {
            rest
        }
    }
}

/// The `(class pattern, title pattern)` entries whose two patterns compile,
/// in order.
pub open spec fn compiled_exclude_entries(entries: Seq<(String, String)>) -> Seq<(Seq<char>, Seq<char>)>
    decreases entries.len(),
{
    if entries.len() == 0 {
        seq![]
    } else {
        let rest = compiled_exclude_entries(entries.drop_last());
        let e = entries.last();
        if regex_compiles(e.0@) && regex_compiles(e.1@) {
            rest.push((e.0@, e.1@))
        } else {
            rest
        }
    }
}

/// The patterns and icons of a compiled class table.
pub open spec fn icon_rules_view(rules: Seq<(Rule, String)>) -> Seq<(Seq<char>, Seq<char>)> {
    rules.map_values(|e: (Rule, String)| (e.0@, e.1@))
}

/// The patterns and icons of a compiled title table.
pub open spec fn title_rules_view(rules: Seq<(Rule, Vec<(Rule, String)>)>) -> Seq<
    (Seq<char>, Seq<(Seq<char>, Seq<char>)>),
> {
    rules.map_values(|e: (Rule, Vec<(Rule, String)>)| (e.0@, icon_rules_view(e.1@)))
}

/// The patterns of a compiled exclude table.
pub open spec fn exclude_rules_view(rules: Seq<(Rule, Rule)>) -> Seq<(Seq<char>, Seq<char>)> {
    rules.map_values(|e: (Rule, Rule)| (e.0@, e.1@))
}

/// Compiles a class table: the entries whose pattern compiles are kept, in
/// order; the others are left out.
pub fn generate_icon_config(icons: Vec<(String, String)>) -> (res: Vec<(Rule, String)>)
    ensures
        icon_rules_view(res@) == compiled_icon_entries(icons@),
{
    compile_icon_entries(&icons)
}

fn compile_icon_entries(icons: &Vec<(String, String)>) -> (res: Vec<(Rule, String)>)
    ensures
        icon_rules_view(res@) == compiled_icon_entries(icons@),
{
    let mut res: Vec<(Rule, String)> = Vec::new();
    let mut i: usize = 0;
    while i < icons.len()
        invariant
            i <= icons.len(),
            icon_rules_view(res@) == compiled_icon_entries(icons@.take(i as int)),
        decreases icons.len() - i,
    {
        let (pattern, icon) = &icons[i];
        let compiled = Rule::new(pattern.as_str());
        proof {
            assert(icons@.take(i + 1).drop_last() =~= icons@.take(i as int));
        }
        match compiled {
            Some(rule) => {
                res.push((rule, icon.clone()));
            },
            None => {},
        }
        i = i + 1;
        assert(icon_rules_view(res@) =~= compiled_icon_entries(icons@.take(i as int)));
    }
    assert(icons@.take(i as int) =~= icons@);
    res
}

/// Compiles a title table: the entries whose class pattern compiles are kept,
/// in order, each with its title entries compiled as a class table is.
pub fn generate_title_config(icons: Vec<(String, Vec<(String, String)>)>) -> (res: Vec<
    (Rule, Vec<(Rule, String)>),
>)
    ensures
        title_rules_view(res@) == compiled_title_entries(icons@),
{
    let mut res: Vec<(Rule, Vec<(Rule, String)>)> = Vec::new();
    let mut i: usize = 0;
    while i < icons.len()
        invariant
            i <= icons.len(),
            title_rules_view(res@) == compiled_title_entries(icons@.take(i as int)),
        decreases icons.len() - i,
    {
        let (pattern, titles) = &icons[i];
        let compiled = Rule::new(pattern.as_str());
        proof {
            assert(icons@.take(i + 1).drop_last() =~= icons@.take(i as int));
        }
        match compiled {
            Some(rule) => {
                let title_rules = compile_icon_entries(titles);
                res.push((rule, title_rules));
            },
            None => {},
        }
        i = i + 1;
        assert(title_rules_view(res@) =~= compiled_title_entries(icons@.take(i as int)));
    }
    assert(icons@.take(i as int) =~= icons@);
    res
}

/// Compiles the exclude table: the entries whose two patterns compile are
/// kept, in order.
pub fn generate_exclude_config(icons: Vec<(String, String)>) -> (res: Vec<(Rule, Rule)>)
    ensures
        exclude_rules_view(res@) == compiled_exclude_entries(icons@),
{
    let mut res: Vec<(Rule, Rule)> = Vec::new();
    let mut i: usize = 0;
    while i < icons.len()
        invariant
            i <= icons.len(),
            exclude_rules_view(res@) == compiled_exclude_entries(icons@.take(i as int)),
        decreases icons.len() - i,
    {
        let (class, title) = &icons[i];
        let class_rule = Rule::new(class.as_str());
        let title_rule = Rule::new(title.as_str());
        proof {
            assert(icons@.take(i + 1).drop_last() =~= icons@.take(i as int));
        }
        match (class_rule, title_rule) {
            (Some(c), Some(t)) => {
                res.push((c, t));
            },
            _ => {},
        }
        i = i + 1;
        assert(exclude_rules_view(res@) =~= compiled_exclude_entries(icons@.take(i as int)));
    }
    assert(icons@.take(i as int) =~= icons@);
    res
}


// ---------------------------------------------------------------------------
// Tables keyed by pattern
// ---------------------------------------------------------------------------

/// Whether no two entries of a raw table have the same pattern, as in a
/// table of the configuration file.
pub open spec fn distinct_keys<V>(entries: Seq<(String, V)>) -> bool {
    forall|i: int, j: int|
        0 <= i < j < entries.len() ==> (#[trigger] entries[i]).0@ != (#[trigger] entries[j]).0@
}

/// Whether no two entries of a compiled table have the same pattern.
pub open spec fn distinct_patterns<V>(entries: Seq<(Seq<char>, V)>) -> bool {
    forall|i: int, j: int|
        0 <= i < j < entries.len() ==> (#[trigger] entries[i]).0 != (#[trigger] entries[j]).0
}

proof fn lemma_icon_patterns_from(entries: Seq<(String, String)>)
    ensures
        forall|k: int|
            0 <= k < compiled_icon_entries(entries).len() ==> exists|i: int|
                0 <= i < entries.len() && (#[trigger] compiled_icon_entries(entries)[k]).0
                    == entries[i].0@,
    decreases entries.len(),
{
    if entries.len() > 0 {
        let prev = entries.drop_last();
        lemma_icon_patterns_from(prev);
        let c = compiled_icon_entries(entries);
        assert forall|k: int| #![trigger c[k]] 0 <= k < c.len() implies exists|i: int|
            0 <= i < entries.len() && (#[trigger] c[k]).0 == entries[i].0@ by {
            let p = compiled_icon_entries(prev);
            if k < p.len() {
                assert(c[k] == p[k]);
                let i = choose|i: int| 0 <= i < prev.len() && p[k].0 == prev[i].0@;
                assert(entries[i] == prev[i]);
            } else {
                assert(c[k].0 == entries[entries.len() - 1].0@);
            }
        }
    }
}

proof fn lemma_title_patterns_from(entries: Seq<(String, Vec<(String, String)>)>)
    ensures
        forall|k: int|
            0 <= k < compiled_title_entries(entries).len() ==> exists|i: int|
                0 <= i < entries.len() && (#[trigger] compiled_title_entries(entries)[k]).0
                    == entries[i].0@,
    decreases entries.len(),
{
    if entries.len() > 0 {
        let prev = entries.drop_last();
        lemma_title_patterns_from(prev);
        let c = compiled_title_entries(entries);
        assert forall|k: int| #![trigger c[k]] 0 <= k < c.len() implies exists|i: int|
            0 <= i < entries.len() && (#[trigger] c[k]).0 == entries[i].0@ by {
            let p = compiled_title_entries(prev);
            if k < p.len() {
                assert(c[k] == p[k]);
                let i = choose|i: int| 0 <= i < prev.len() && p[k].0 == prev[i].0@;
                assert(entries[i] == prev[i]);
            } else {
                assert(c[k].0 == entries[entries.len() - 1].0@);
            }
        }
    }
}

proof fn lemma_exclude_patterns_from(entries: Seq<(String, String)>)
    ensures
        forall|k: int|
            0 <= k < compiled_exclude_entries(entries).len() ==> exists|i: int|
                0 <= i < entries.len() && (#[trigger] compiled_exclude_entries(entries)[k]).0
                    == entries[i].0@,
    decreases entries.len(),
{
    if entries.len() > 0 {
        let prev = entries.drop_last();
        lemma_exclude_patterns_from(prev);
        let c = compiled_exclude_entries(entries);
        assert forall|k: int| #![trigger c[k]] 0 <= k < c.len() implies exists|i: int|
            0 <= i < entries.len() && (#[trigger] c[k]).0 == entries[i].0@ by {
            let p = compiled_exclude_entries(prev);
            if k < p.len() {
                assert(c[k] == p[k]);
                let i = choose|i: int| 0 <= i < prev.len() && p[k].0 == prev[i].0@;
                assert(entries[i] == prev[i]);
            } else {
                assert(c[k].0 == entries[entries.len() - 1].0@);
            }
        }
    }
}

/// Compiling a table whose patterns are distinct, as those of a
/// configuration file's table are, gives a table whose patterns are
/// distinct: each class, title or exclude pattern keeps a single entry.
pub proof fn law_compiled_patterns_distinct(
    icons: Seq<(String, String)>,
    titles: Seq<(String, Vec<(String, String)>)>,
    exclude: Seq<(String, String)>,
)
    ensures
        distinct_keys(icons) ==> distinct_patterns(compiled_icon_entries(icons)),
        distinct_keys(titles) ==> distinct_patterns(compiled_title_entries(titles)),
        distinct_keys(exclude) ==> distinct_patterns(compiled_exclude_entries(exclude)),
    decreases icons.len() + titles.len() + exclude.len(),
{
    if distinct_keys(icons) && icons.len() > 0 {
        let prev = icons.drop_last();
        assert forall|i: int, j: int| 0 <= i < j < prev.len() implies (#[trigger] prev[i]).0@ != (
        #[trigger] prev[j]).0@ by {
            assert(prev[i] == icons[i] && prev[j] == icons[j]);
        }
        law_compiled_patterns_distinct(prev, seq![], seq![]);
        lemma_icon_patterns_from(prev);
        let p = compiled_icon_entries(prev);
        let c = compiled_icon_entries(icons);
        assert forall|i: int, j: int| 0 <= i < j < c.len() implies (#[trigger] c[i]).0 != (
        #[trigger] c[j]).0 by {
            assert(c[i] == p[i]);
            if j < p.len() {
                assert(c[j] == p[j]);
            } else {
                let k = choose|k: int| 0 <= k < prev.len() && p[i].0 == prev[k].0@;
                assert(prev[k] == icons[k]);
                assert(icons[k].0@ != icons[icons.len() - 1].0@);
            }
        }
    }
    if distinct_keys(titles) && titles.len() > 0 {
        let prev = titles.drop_last();
        assert forall|i: int, j: int| 0 <= i < j < prev.len() implies (#[trigger] prev[i]).0@ != (
        #[trigger] prev[j]).0@ by {
            assert(prev[i] == titles[i] && prev[j] == titles[j]);
        }
        law_compiled_patterns_distinct(seq![], prev, seq![]);
        lemma_title_patterns_from(prev);
        let p = compiled_title_entries(prev);
        let c = compiled_title_entries(titles);
        assert forall|i: int, j: int| 0 <= i < j < c.len() implies (#[trigger] c[i]).0 != (
        #[trigger] c[j]).0 by {
            assert(c[i] == p[i]);
            if j < p.len() {
                assert(c[j] == p[j]);
            } else {
                let k = choose|k: int| 0 <= k < prev.len() && p[i].0 == prev[k].0@;
                assert(prev[k] == titles[k]);
                assert(titles[k].0@ != titles[titles.len() - 1].0@);
            }
        }
    }
    if distinct_keys(exclude) && exclude.len() > 0 {
        let prev = exclude.drop_last();
        assert forall|i: int, j: int| 0 <= i < j < prev.len() implies (#[trigger] prev[i]).0@ != (
        #[trigger] prev[j]).0@ by {
            assert(prev[i] == exclude[i] && prev[j] == exclude[j]);
        }
        law_compiled_patterns_distinct(seq![], seq![], prev);
        lemma_exclude_patterns_from(prev);
        let p = compiled_exclude_entries(prev);
        let c = compiled_exclude_entries(exclude);
        assert forall|i: int, j: int| 0 <= i < j < c.len() implies (#[trigger] c[i]).0 != (
        #[trigger] c[j]).0 by {
            assert(c[i] == p[i]);
            if j < p.len() {
                assert(c[j] == p[j]);
            } else {
                let k = choose|k: int| 0 <= k < prev.len() && p[i].0 == prev[k].0@;
                assert(prev[k] == exclude[k]);
                assert(exclude[k].0@ != exclude[exclude.len() - 1].0@);
            }
        }
    }
}

/// Whether `config` is the compiled form of the tables `raw`: each table holds
/// the entries of the raw table whose patterns compile, in order, and the
/// `[format]` table is carried over.
pub open spec fn compiled_from(config: ConfigFile, raw: ConfigFileRaw) -> bool {
    &&& icon_rules_view(config.class@) == compiled_icon_entries(raw.class@)
    &&& icon_rules_view(config.class_active@) == compiled_icon_entries(raw.class_active@)
    &&& icon_rules_view(config.initial_class@) == compiled_icon_entries(raw.initial_class@)
    &&& icon_rules_view(config.initial_class_active@) == compiled_icon_entries(
        raw.initial_class_active@,
    )
    &&& title_rules_view(config.title_in_class@) == compiled_title_entries(raw.title_in_class@)
    &&& title_rules_view(config.title_in_class_active@) == compiled_title_entries(
        raw.title_in_class_active@,
    )
    &&& title_rules_view(config.title_in_initial_class@) == compiled_title_entries(
        raw.title_in_initial_class@,
    )
    &&& title_rules_view(config.title_in_initial_class_active@) == compiled_title_entries(
        raw.title_in_initial_class_active@,
    )
    &&& title_rules_view(config.initial_title_in_class@) == compiled_title_entries(
        raw.initial_title_in_class@,
    )
    &&& title_rules_view(config.initial_title_in_class_active@) == compiled_title_entries(
        raw.initial_title_in_class_active@,
    )
    &&& title_rules_view(config.initial_title_in_initial_class@) == compiled_title_entries(
        raw.initial_title_in_initial_class@,
    )
    &&& title_rules_view(config.initial_title_in_initial_class_active@) == compiled_title_entries(
        raw.initial_title_in_initial_class_active@,
    )
    &&& exclude_rules_view(config.exclude@) == compiled_exclude_entries(raw.exclude@)
    &&& config.format == raw.format
}

/// Compiles the tables read from a configuration file; `None` stands for a
/// file with nothing in it, whose tables are [`ConfigFileRaw::empty_file`].
pub fn read_config_file(raw: Option<ConfigFileRaw>) -> (res: ConfigFile)
    ensures
        raw matches Some(r) ==> compiled_from(res, r),
        raw is None ==> exists|r: ConfigFileRaw|
            {
                &&& compiled_from(res, r)
                &&& r.class@.len() == 1
                &&& r.class@[0].0@ == "DEFAULT"@
                &&& r.class@[0].1@ == "\u{f059} {class}"@
                &&& r.class_active@.len() == 0
                &&& r.initial_class@.len() == 0
                &&& r.initial_class_active@.len() == 0
                &&& r.title_in_class@.len() == 0
                &&& r.title_in_class_active@.len() == 0
                &&& r.title_in_initial_class@.len() == 0
                &&& r.title_in_initial_class_active@.len() == 0
                &&& r.initial_title_in_class@.len() == 0
                &&& r.initial_title_in_class_active@.len() == 0
                &&& r.initial_title_in_initial_class@.len() == 0
                &&& r.initial_title_in_initial_class_active@.len() == 0
                &&& r.exclude@.len() == 0
                &&& r.format.is_default()
            },
{
    let config = match raw {
        Some(r) => r,
        None => ConfigFileRaw::empty_file(),
    };
    let ghost r = config;
    let res = ConfigFile {
        class: generate_icon_config(config.class),
        class_active: generate_icon_config(config.class_active),
        title_in_class: generate_title_config(config.title_in_class),
        title_in_class_active: generate_title_config(config.title_in_class_active),
        title_in_initial_class: generate_title_config(config.title_in_initial_class),
        title_in_initial_class_active: generate_title_config(config.title_in_initial_class_active),
        initial_class: generate_icon_config(config.initial_class),
        initial_class_active: generate_icon_config(config.initial_class_active),
        initial_title_in_class: generate_title_config(config.initial_title_in_class),
        initial_title_in_class_active: generate_title_config(config.initial_title_in_class_active),
        initial_title_in_initial_class: generate_title_config(
            config.initial_title_in_initial_class,
        ),
        initial_title_in_initial_class_active: generate_title_config(
            config.initial_title_in_initial_class_active,
        ),
        exclude: generate_exclude_config(config.exclude),
        format: config.format,
    };
    assert(compiled_from(res, r));
    res
}


// ---------------------------------------------------------------------------
// Each compiled table comes from the raw table of the same name
// ---------------------------------------------------------------------------

/// The patterns and icons of a raw class table, in order.
pub open spec fn raw_pairs(raw: Seq<(String, String)>) -> Seq<(Seq<char>, Seq<char>)> {
    raw.map_values(|e: (String, String)| (e.0@, e.1@))
}

/// The class patterns of a raw title table, each with its title rules
/// compiled, in order.
pub open spec fn raw_title_pairs(raw: Seq<(String, Vec<(String, String)>)>) -> Seq<
    (Seq<char>, Seq<(Seq<char>, Seq<char>)>),
> {
    raw.map_values(
        |e: (String, Vec<(String, String)>)| (e.0@, compiled_icon_entries(e.1@)),
    )
}

/// Whether the compiled class table `compiled` (patterns and icons) holds
/// exactly the entries of the raw table `raw` whose pattern compiles: each
/// compiled entry is an entry of `raw` with a pattern that compiles, and
/// each entry of `raw` whose pattern compiles is in `compiled`.
pub open spec fn icon_table_from(
    compiled: Seq<(Seq<char>, Seq<char>)>,
    raw: Seq<(String, String)>,
) -> bool {
    &&& forall|k: int|
        0 <= k < compiled.len() ==> regex_compiles(compiled[k].0) && raw_pairs(raw).contains(
            #[trigger] compiled[k],
        )
    &&& forall|i: int|
        0 <= i < raw.len() && regex_compiles(raw[i].0@) ==> compiled.contains(
            #[trigger] raw_pairs(raw)[i],
        )
}

/// Whether the compiled title table `compiled` holds exactly the entries of
/// the raw table `raw` whose class pattern compiles, each with the title
/// rules of that entry compiled.
pub open spec fn title_table_from(
    compiled: Seq<(Seq<char>, Seq<(Seq<char>, Seq<char>)>)>,
    raw: Seq<(String, Vec<(String, String)>)>,
) -> bool {
    &&& forall|k: int|
        0 <= k < compiled.len() ==> regex_compiles(compiled[k].0) && raw_title_pairs(raw).contains(
            #[trigger] compiled[k],
        )
    &&& forall|i: int|
        0 <= i < raw.len() && regex_compiles(raw[i].0@) ==> compiled.contains(
            #[trigger] raw_title_pairs(raw)[i],
        )
}

/// Whether the compiled exclude table `compiled` holds exactly the entries
/// of the raw table `raw` whose two patterns compile.
pub open spec fn exclude_table_from(
    compiled: Seq<(Seq<char>, Seq<char>)>,
    raw: Seq<(String, String)>,
) -> bool {
    &&& forall|k: int|
        0 <= k < compiled.len() ==> regex_compiles(compiled[k].0) && regex_compiles(compiled[k].1)
            && raw_pairs(raw).contains(#[trigger] compiled[k])
    &&& forall|i: int|
        0 <= i < raw.len() && regex_compiles(raw[i].0@) && regex_compiles(raw[i].1@)
            ==> compiled.contains(#[trigger] raw_pairs(raw)[i])
}

proof fn lemma_icon_table_from(entries: Seq<(String, String)>)
    ensures
        icon_table_from(compiled_icon_entries(entries), entries),
    decreases entries.len(),
{
    if entries.len() > 0 {
        let prev = entries.drop_last();
        lemma_icon_table_from(prev);
        let p = compiled_icon_entries(prev);
        let c = compiled_icon_entries(entries);
        let n = entries.len() - 1;
        let rp = raw_pairs(prev);
        let re = raw_pairs(entries);
        assert forall|k: int| 0 <= k < c.len() implies regex_compiles(c[k].0) && re.contains(
            #[trigger] c[k],
        ) by {
            if k < p.len() {
                assert(c[k] == p[k]);
                assert(rp.contains(p[k]));
                let j = choose|j: int| 0 <= j < rp.len() && rp[j] == p[k];
                assert(re[j] == rp[j]);
            } else {
                assert(c[k] == re[n]);
            }
        }
        assert forall|i: int| 0 <= i < entries.len() && regex_compiles(entries[i].0@) implies c.contains(
            #[trigger] re[i],
        ) by {
            if i < n {
                assert(re[i] == rp[i]);
                assert(p.contains(rp[i]));
                let k = choose|k: int| 0 <= k < p.len() && p[k] == rp[i];
                assert(c[k] == p[k]);
            } else {
                assert(c[p.len() as int] == re[i]);
            }
        }
    }
}

proof fn lemma_title_table_from(entries: Seq<(String, Vec<(String, String)>)>)
    ensures
        title_table_from(compiled_title_entries(entries), entries),
    decreases entries.len(),
{
    if entries.len() > 0 {
        let prev = entries.drop_last();
        lemma_title_table_from(prev);
        let p = compiled_title_entries(prev);
        let c = compiled_title_entries(entries);
        let n = entries.len() - 1;
        let rp = raw_title_pairs(prev);
        let re = raw_title_pairs(entries);
        assert forall|k: int| 0 <= k < c.len() implies regex_compiles(c[k].0) && re.contains(
            #[trigger] c[k],
        ) by {
            if k < p.len() {
                assert(c[k] == p[k]);
                assert(rp.contains(p[k]));
                let j = choose|j: int| 0 <= j < rp.len() && rp[j] == p[k];
                assert(re[j] == rp[j]);
            } else {
                assert(c[k] == re[n]);
            }
        }
        assert forall|i: int| 0 <= i < entries.len() && regex_compiles(entries[i].0@) implies c.contains(
            #[trigger] re[i],
        ) by {
            if i < n {
                assert(re[i] == rp[i]);
                assert(p.contains(rp[i]));
                let k = choose|k: int| 0 <= k < p.len() && p[k] == rp[i];
                assert(c[k] == p[k]);
            } else {
                assert(c[p.len() as int] == re[i]);
            }
        }
    }
}

proof fn lemma_exclude_table_from(entries: Seq<(String, String)>)
    ensures
        exclude_table_from(compiled_exclude_entries(entries), entries),
    decreases entries.len(),
{
    if entries.len() > 0 {
        let prev = entries.drop_last();
        lemma_exclude_table_from(prev);
        let p = compiled_exclude_entries(prev);
        let c = compiled_exclude_entries(entries);
        let n = entries.len() - 1;
        let rp = raw_pairs(prev);
        let re = raw_pairs(entries);
        assert forall|k: int| 0 <= k < c.len() implies regex_compiles(c[k].0) && regex_compiles(
            c[k].1,
        ) && re.contains(#[trigger] c[k]) by {
            if k < p.len() {
                assert(c[k] == p[k]);
                assert(rp.contains(p[k]));
                let j = choose|j: int| 0 <= j < rp.len() && rp[j] == p[k];
                assert(re[j] == rp[j]);
            } else {
                assert(c[k] == re[n]);
            }
        }
        assert forall|i: int|
            0 <= i < entries.len() && regex_compiles(entries[i].0@) && regex_compiles(
                entries[i].1@,
            ) implies c.contains(#[trigger] re[i]) by {
            if i < n {
                assert(re[i] == rp[i]);
                assert(p.contains(rp[i]));
                let k = choose|k: int| 0 <= k < p.len() && p[k] == rp[i];
                assert(c[k] == p[k]);
            } else {
                assert(c[p.len() as int] == re[i]);
            }
        }
    }
}

/// Each table of a compiled configuration comes from the raw table of the
/// same name: it holds exactly the entries of that table whose patterns
/// compile, and the `[format]` table is carried over. So a rule written in
/// one table is never found in another.
pub proof fn law_tables_compiled_from_same_name(config: ConfigFile, raw: ConfigFileRaw)
    requires
        compiled_from(config, raw),
    ensures
        icon_table_from(icon_rules_view(config.class@), raw.class@),
        icon_table_from(icon_rules_view(config.class_active@), raw.class_active@),
        icon_table_from(icon_rules_view(config.initial_class@), raw.initial_class@),
        icon_table_from(icon_rules_view(config.initial_class_active@), raw.initial_class_active@),
        title_table_from(title_rules_view(config.title_in_class@), raw.title_in_class@),
        title_table_from(
            title_rules_view(config.title_in_class_active@),
            raw.title_in_class_active@,
        ),
        title_table_from(
            title_rules_view(config.title_in_initial_class@),
            raw.title_in_initial_class@,
        ),
        title_table_from(
            title_rules_view(config.title_in_initial_class_active@),
            raw.title_in_initial_class_active@,
        ),
        title_table_from(
            title_rules_view(config.initial_title_in_class@),
            raw.initial_title_in_class@,
        ),
        title_table_from(
            title_rules_view(config.initial_title_in_class_active@),
            raw.initial_title_in_class_active@,
        ),
        title_table_from(
            title_rules_view(config.initial_title_in_initial_class@),
            raw.initial_title_in_initial_class@,
        ),
        title_table_from(
            title_rules_view(config.initial_title_in_initial_class_active@),
            raw.initial_title_in_initial_class_active@,
        ),
        exclude_table_from(exclude_rules_view(config.exclude@), raw.exclude@),
        config.format == raw.format,
{
    lemma_icon_table_from(raw.class@);
    lemma_icon_table_from(raw.class_active@);
    lemma_icon_table_from(raw.initial_class@);
    lemma_icon_table_from(raw.initial_class_active@);
    lemma_title_table_from(raw.title_in_class@);
    lemma_title_table_from(raw.title_in_class_active@);
    lemma_title_table_from(raw.title_in_initial_class@);
    lemma_title_table_from(raw.title_in_initial_class_active@);
    lemma_title_table_from(raw.initial_title_in_class@);
    lemma_title_table_from(raw.initial_title_in_class_active@);
    lemma_title_table_from(raw.initial_title_in_initial_class@);
    lemma_title_table_from(raw.initial_title_in_initial_class_active@);
    lemma_exclude_table_from(raw.exclude@);
}

} // verus!
