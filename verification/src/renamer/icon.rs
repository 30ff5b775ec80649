//! Which icon a window gets: the rule tables are searched in a fixed order of
//! priority, the active tables for the focused window.
use crate::config::ConfigFile;
use crate::renamer::Renamer;
use crate::rule::{captured_texts, regex_matches, string_views, Rule};
use vstd::prelude::*;

verus! {

broadcast use vstd::string::group_string_axioms;

/// The capture groups of a title match, by their views.
pub open spec fn captures_view(c: Option<Vec<String>>) -> Option<Seq<Seq<char>>> {
    match c {
        Some(v) => Some(string_views(v@)),
        None => None,
    }
}

/// The rule that gave a window its icon: the table it came from, the pattern
/// that matched, the icon, and for title rules the capture groups of the
/// title match.
#[derive(Debug, Eq)]
pub enum IconConfig {
    Class(String, String),
    InitialClass(String, String),
    TitleInClass(String, String, Option<Vec<String>>),
    TitleInInitialClass(String, String, Option<Vec<String>>),
    InitialTitleInClass(String, String, Option<Vec<String>>),
    InitialTitleInInitialClass(String, String, Option<Vec<String>>),
    Default(String),
}

/// An [`IconConfig`] with its strings taken by their views.
pub enum IconConfigModel {
    Class(Seq<char>, Seq<char>),
    InitialClass(Seq<char>, Seq<char>),
    TitleInClass(Seq<char>, Seq<char>, Option<Seq<Seq<char>>>),
    TitleInInitialClass(Seq<char>, Seq<char>, Option<Seq<Seq<char>>>),
    InitialTitleInClass(Seq<char>, Seq<char>, Option<Seq<Seq<char>>>),
    InitialTitleInInitialClass(Seq<char>, Seq<char>, Option<Seq<Seq<char>>>),
    Default(Seq<char>),
}

impl IconConfigModel {
    /// The pattern, the icon and the capture groups; a default icon has the
    /// pattern `DEFAULT`.
    pub open spec fn parts(self) -> (Seq<char>, Seq<char>, Option<Seq<Seq<char>>>) {
        match self {
            IconConfigModel::Default(icon) => ("DEFAULT"@, icon, None),
            IconConfigModel::Class(rule, icon) => (rule, icon, None),
            IconConfigModel::InitialClass(rule, icon) => (rule, icon, None),
            IconConfigModel::TitleInClass(rule, icon, c) => (rule, icon, c),
            IconConfigModel::TitleInInitialClass(rule, icon, c) => (rule, icon, c),
            IconConfigModel::InitialTitleInClass(rule, icon, c) => (rule, icon, c),
            IconConfigModel::InitialTitleInInitialClass(rule, icon, c) => (rule, icon, c),
        }
    }
}

impl View for IconConfig {
    type V = IconConfigModel;

    open spec fn view(&self) -> IconConfigModel {
        match self {
            IconConfig::Class(r, i) => IconConfigModel::Class(r@, i@),
            IconConfig::InitialClass(r, i) => IconConfigModel::InitialClass(r@, i@),
            IconConfig::TitleInClass(r, i, c) => IconConfigModel::TitleInClass(
                r@,
                i@,
                captures_view(*c),
            ),
            IconConfig::TitleInInitialClass(r, i, c) => IconConfigModel::TitleInInitialClass(
                r@,
                i@,
                captures_view(*c),
            ),
            IconConfig::InitialTitleInClass(r, i, c) => IconConfigModel::InitialTitleInClass(
                r@,
                i@,
                captures_view(*c),
            ),
            IconConfig::InitialTitleInInitialClass(r, i, c) =>
                IconConfigModel::InitialTitleInInitialClass(r@, i@, captures_view(*c)),
            IconConfig::Default(i) => IconConfigModel::Default(i@),
        }
    }
}

/// A copy of a list of strings.
pub fn clone_strings(v: &Vec<String>) -> (res: Vec<String>)
    ensures
        string_views(res@) == string_views(v@),
{
    let mut res: Vec<String> = Vec::new();
    let mut i: usize = 0;
    while i < v.len()
        invariant
            i <= v.len(),
            res@.len() == i,
            forall|k: int| 0 <= k < i ==> res@[k]@ == v@[k]@,
        decreases v.len() - i,
    {
        let s = v[i].clone();
        res.push(s);
        i = i + 1;
    }
    assert(string_views(res@) =~= string_views(v@));
    res
}

/// A copy of optional capture groups.
pub fn clone_captures(c: &Option<Vec<String>>) -> (res: Option<Vec<String>>)
    ensures
        captures_view(res) == captures_view(*c),
{
    match c {
        Some(v) => Some(clone_strings(v)),
        None => None,
    }
}

/// Whether two lists of strings are equal.
pub fn strings_eq(a: &Vec<String>, b: &Vec<String>) -> (res: bool)
    ensures
        res == (string_views(a@) == string_views(b@)),
{
    if a.len() != b.len() {
        assert(string_views(a@).len() != string_views(b@).len());
        return false;
    }
    let mut i: usize = 0;
    while i < a.len()
        invariant
            i <= a.len(),
            a.len() == b.len(),
            forall|k: int| 0 <= k < i ==> a@[k]@ == b@[k]@,
        decreases a.len() - i,
    {
        if a[i] != b[i] {
            assert(string_views(a@)[i as int] != string_views(b@)[i as int]);
            return false;
        }
        i = i + 1;
    }
    assert(string_views(a@) =~= string_views(b@));
    true
}

/// Whether two optional capture groups are equal.
pub fn captures_eq(a: &Option<Vec<String>>, b: &Option<Vec<String>>) -> (res: bool)
    ensures
        res == (captures_view(*a) == captures_view(*b)),
{
    match (a, b) {
        (Some(x), Some(y)) => strings_eq(x, y),
        (None, None) => true,
        _ => false,
    }
}

impl Clone for IconConfig {
    fn clone(&self) -> (res: Self)
        ensures
            res@ == self@,
    {
        match self {
            IconConfig::Class(r, i) => IconConfig::Class(r.clone(), i.clone()),
            IconConfig::InitialClass(r, i) => IconConfig::InitialClass(r.clone(), i.clone()),
            IconConfig::TitleInClass(r, i, c) => IconConfig::TitleInClass(
                r.clone(),
                i.clone(),
                clone_captures(c),
            ),
            IconConfig::TitleInInitialClass(r, i, c) => IconConfig::TitleInInitialClass(
                r.clone(),
                i.clone(),
                clone_captures(c),
            ),
            IconConfig::InitialTitleInClass(r, i, c) => IconConfig::InitialTitleInClass(
                r.clone(),
                i.clone(),
                clone_captures(c),
            ),
            IconConfig::InitialTitleInInitialClass(r, i, c) =>
                IconConfig::InitialTitleInInitialClass(r.clone(), i.clone(), clone_captures(c)),
            IconConfig::Default(i) => IconConfig::Default(i.clone()),
        }
    }
}

impl PartialEq for IconConfig {
    fn eq(&self, other: &Self) -> (res: bool) {
        match (self, other) {
            (IconConfig::Class(r1, i1), IconConfig::Class(r2, i2)) => *r1 == *r2 && *i1 == *i2,
            (IconConfig::InitialClass(r1, i1), IconConfig::InitialClass(r2, i2)) => *r1 == *r2
                && *i1 == *i2,
            (IconConfig::TitleInClass(r1, i1, c1), IconConfig::TitleInClass(r2, i2, c2)) => *r1
                == *r2 && *i1 == *i2 && captures_eq(c1, c2),
            (
                IconConfig::TitleInInitialClass(r1, i1, c1),
                IconConfig::TitleInInitialClass(r2, i2, c2),
            ) => *r1 == *r2 && *i1 == *i2 && captures_eq(c1, c2),
            (
                IconConfig::InitialTitleInClass(r1, i1, c1),
                IconConfig::InitialTitleInClass(r2, i2, c2),
            ) => *r1 == *r2 && *i1 == *i2 && captures_eq(c1, c2),
            (
                IconConfig::InitialTitleInInitialClass(r1, i1, c1),
                IconConfig::InitialTitleInInitialClass(r2, i2, c2),
            ) => *r1 == *r2 && *i1 == *i2 && captures_eq(c1, c2),
            (IconConfig::Default(i1), IconConfig::Default(i2)) => *i1 == *i2,
            _ => false,
        }
    }
}

impl vstd::std_specs::cmp::PartialEqSpecImpl for IconConfig {
    open spec fn obeys_eq_spec() -> bool {
        true
    }

    open spec fn eq_spec(&self, other: &Self) -> bool {
        self@ == other@
    }
}

impl IconConfig {
    /// The icon of the rule.
    pub fn icon(&self) -> (res: String)
        ensures
            res@ == self@.parts().1,
    {
        let (_, icon, _) = self.get();
        icon
    }

    /// The pattern of the rule (`DEFAULT` for a default icon).
    pub fn rule(&self) -> (res: String)
        ensures
            res@ == self@.parts().0,
    {
        let (rule, _, _) = self.get();
        rule
    }

    /// The capture groups of the title match, for a title rule.
    pub fn captures(&self) -> (res: Option<Vec<String>>)
        ensures
            captures_view(res) == self@.parts().2,
    {
        let (_, _, captures) = self.get();
        captures
    }

    /// The pattern, the icon and the capture groups.
    pub fn get(&self) -> (res: (String, String, Option<Vec<String>>))
        ensures
            (res.0@, res.1@, captures_view(res.2)) == self@.parts(),
    {
        match self {
            IconConfig::Default(icon) => ("DEFAULT".to_string(), icon.clone(), None),
            IconConfig::Class(rule, icon) | IconConfig::InitialClass(rule, icon) => (
                rule.clone(),
                icon.clone(),
                None,
            ),
            IconConfig::TitleInClass(rule, icon, captures)
            | IconConfig::TitleInInitialClass(rule, icon, captures)
            | IconConfig::InitialTitleInClass(rule, icon, captures)
            | IconConfig::InitialTitleInInitialClass(rule, icon, captures) => (
                rule.clone(),
                icon.clone(),
                clone_captures(captures),
            ),
        }
    }
}

/// The rule of a window together with whether it came from an active table.
#[derive(Debug, Eq)]
pub enum IconStatus {
    Active(IconConfig),
    Inactive(IconConfig),
}

/// An [`IconStatus`] with its strings taken by their views.
pub enum IconStatusModel {
    Active(IconConfigModel),
    Inactive(IconConfigModel),
}

impl IconStatusModel {
    /// The rule, wherever it came from.
    pub open spec fn config(self) -> IconConfigModel {
        match self {
            IconStatusModel::Active(c) => c,
            IconStatusModel::Inactive(c) => c,
        }
    }
}

impl View for IconStatus {
    type V = IconStatusModel;

    open spec fn view(&self) -> IconStatusModel {
        match self {
            IconStatus::Active(c) => IconStatusModel::Active(c@),
            IconStatus::Inactive(c) => IconStatusModel::Inactive(c@),
        }
    }
}

impl Clone for IconStatus {
    fn clone(&self) -> (res: Self)
        ensures
            res@ == self@,
    {
        match self {
            IconStatus::Active(c) => IconStatus::Active(c.clone()),
            IconStatus::Inactive(c) => IconStatus::Inactive(c.clone()),
        }
    }
}

impl PartialEq for IconStatus {
    fn eq(&self, other: &Self) -> (res: bool) {
        match (self, other) {
            (IconStatus::Active(a), IconStatus::Active(b)) => a == b,
            (IconStatus::Inactive(a), IconStatus::Inactive(b)) => a == b,
            _ => false,
        }
    }
}

impl vstd::std_specs::cmp::PartialEqSpecImpl for IconStatus {
    open spec fn obeys_eq_spec() -> bool {
        true
    }

    open spec fn eq_spec(&self, other: &Self) -> bool {
        self@ == other@
    }
}

impl IconStatus {
    /// The icon of the rule.
    pub fn icon(&self) -> (res: String)
        ensures
            res@ == self@.config().parts().1,
    {
        match self {
            IconStatus::Active(config) | IconStatus::Inactive(config) => config.icon(),
        }
    }

    /// The pattern of the rule.
    pub fn rule(&self) -> (res: String)
        ensures
            res@ == self@.config().parts().0,
    {
        match self {
            IconStatus::Active(config) | IconStatus::Inactive(config) => config.rule(),
        }
    }

    /// The capture groups of the title match, for a title rule.
    pub fn captures(&self) -> (res: Option<Vec<String>>)
        ensures
            captures_view(res) == self@.config().parts().2,
    {
        match self {
            IconStatus::Active(config) | IconStatus::Inactive(config) => config.captures(),
        }
    }
}


// ---------------------------------------------------------------------------
// Searching the rule tables
// ---------------------------------------------------------------------------

/// The index of the first entry of `rules` whose pattern matches `text`.
pub open spec fn first_match<T>(rules: Seq<(Rule, T)>, text: Seq<char>) -> Option<int>
    decreases rules.len(),
{
    if rules.len() == 0 {
        None
    } else if regex_matches(rules[0].0@, text) {
        Some(0)
    } else {
        match first_match(rules.drop_first(), text) {
            Some(i) => Some(i + 1),
            None => None,
        }
    }
}

/// `first_match` finds the first entry whose pattern matches, if any does.
pub proof fn lemma_first_match<T>(rules: Seq<(Rule, T)>, text: Seq<char>)
    ensures
        first_match(rules, text) matches Some(i) ==> {
            &&& 0 <= i < rules.len()
            &&& regex_matches(rules[i].0@, text)
            &&& forall|j: int| 0 <= j < i ==> !regex_matches(#[trigger] rules[j].0@, text)
        },
        first_match(rules, text) is None ==> forall|j: int|
            0 <= j < rules.len() ==> !regex_matches(#[trigger] rules[j].0@, text),
    decreases rules.len(),
{
    if rules.len() > 0 {
        let rest = rules.drop_first();
        lemma_first_match(rest, text);
        if !regex_matches(rules[0].0@, text) {
            match first_match(rest, text) {
                Some(i) => {
                    assert(rules[i + 1] == rest[i]);
                    assert forall|j: int| 0 <= j < i + 1 implies !regex_matches(
                        #[trigger] rules[j].0@,
                        text,
                    ) by {
                        if j > 0 {
                            assert(rules[j] == rest[j - 1]);
                        }
                    }
                },
                None => {
                    assert forall|j: int| 0 <= j < rules.len() implies !regex_matches(
                        #[trigger] rules[j].0@,
                        text,
                    ) by {
                        if j > 0 {
                            assert(rules[j] == rest[j - 1]);
                        }
                    }
                },
            }
        }
    }
}

proof fn lemma_first_match_at<T>(rules: Seq<(Rule, T)>, text: Seq<char>, i: int)
    requires
        0 <= i <= rules.len(),
        forall|j: int| 0 <= j < i ==> !regex_matches(#[trigger] rules[j].0@, text),
        i < rules.len() ==> regex_matches(rules[i].0@, text),
    ensures
        first_match(rules, text) == (if i < rules.len() { Some(i) } else { None::<int> }),
    decreases i,
{
    if i > 0 {
        let rest = rules.drop_first();
        assert(!regex_matches(rules[0].0@, text));
        assert forall|j: int| 0 <= j < i - 1 implies !regex_matches(#[trigger] rest[j].0@, text) by {
            assert(rest[j] == rules[j + 1]);
        }
        if i < rules.len() {
            assert(rest[i - 1] == rules[i]);
        }
        lemma_first_match_at(rest, text, i - 1);
    }
}

/// The index of the first entry of `list` whose rule matches `text`.
pub fn first_rule_match<T>(list: &Vec<(Rule, T)>, text: &str) -> (res: Option<usize>)
    ensures
        match res {
            Some(i) => i < list@.len() && first_match(list@, text@) == Some(i as int),
            None => first_match(list@, text@) is None,
        },
{
    let mut i: usize = 0;
    while i < list.len()
        invariant
            i <= list.len(),
            forall|j: int| 0 <= j < i ==> !regex_matches(#[trigger] list@[j].0@, text@),
        decreases list.len() - i,
    {
        if list[i].0.is_match(text) {
            proof {
                lemma_first_match_at(list@, text@, i as int);
            }
            return Some(i);
        }
        i = i + 1;
    }
    proof {
        lemma_first_match_at(list@, text@, i as int);
    }
    None
}

/// The pattern and icon of the first class rule matching `class`.
pub open spec fn class_match(rules: Seq<(Rule, String)>, class: Seq<char>) -> Option<
    (Seq<char>, Seq<char>),
> {
    match first_match(rules, class) {
        Some(i) => Some((rules[i].0@, rules[i].1@)),
        None => None,
    }
}

/// The title rule chosen for a window: the first entry whose class pattern
/// matches `class` is taken, and in its title rules the first whose pattern
/// matches `title`; with the capture groups of that match.
pub open spec fn title_match(
    rules: Seq<(Rule, Vec<(Rule, String)>)>,
    class: Seq<char>,
    title: Seq<char>,
) -> Option<(Seq<char>, Seq<char>, Option<Seq<Seq<char>>>)> {
    match first_match(rules, class) {
        Some(i) => match first_match(rules[i].1@, title) {
            Some(j) => {
                let r = rules[i].1@[j];
                Some((r.0@, r.1@, captured_texts(r.0@, title)))
            },
            None => None,
        },
        None => None,
    }
}

/// The first class rule of `list` matching `class`: its pattern and icon.
pub fn find_class_helper(list: &Vec<(Rule, String)>, class: &str) -> (res: Option<(String, String)>)
    ensures
        match res {
            Some((rule, icon)) => class_match(list@, class@) == Some((rule@, icon@)),
            None => class_match(list@, class@) is None,
        },
{
    match first_rule_match(list, class) {
        Some(i) => Some((list[i].0.pattern(), list[i].1.clone())),
        None => None,
    }
}

/// The title rule of `list` chosen for a window of class `class` and title
/// `title`: its pattern, its icon and the capture groups of the title match.
pub fn find_title_in_class_helper(
    list: &Vec<(Rule, Vec<(Rule, String)>)>,
    class: &str,
    title: &str,
) -> (res: Option<(String, String, Option<Vec<String>>)>)
    ensures
        match res {
            Some((rule, icon, captures)) => title_match(list@, class@, title@) == Some(
                (rule@, icon@, captures_view(captures)),
            ),
            None => title_match(list@, class@, title@) is None,
        },
{
    match first_rule_match(list, class) {
        Some(i) => {
            let titles = &list[i].1;
            match first_rule_match(titles, title) {
                Some(j) => {
                    let rule = &titles[j].0;
                    let captures = rule.captures(title);
                    Some((rule.pattern(), titles[j].1.clone(), captures))
                },
                None => None,
            }
        },
        None => None,
    }
}

/// `config` wrapped as coming from an active table or not.
pub open spec fn status_of(is_active: bool, config: IconConfigModel) -> IconStatusModel {
    if is_active {
        IconStatusModel::Active(config)
    } else {
        IconStatusModel::Inactive(config)
    }
}

/// The rule a window gets from the tables for active windows
/// (`is_active`) or for the others. The tables are tried in this order, the
/// first that yields a rule deciding: title rules on the initial class and
/// initial title, on the class and initial title, on the initial class and
/// title, on the class and title; then class rules on the class in the
/// initial-class table, then in the class table.
pub open spec fn icon_lookup(
    config: ConfigFile,
    initial_class: Seq<char>,
    class: Seq<char>,
    initial_title: Seq<char>,
    title: Seq<char>,
    is_active: bool,
) -> Option<IconStatusModel> {
    let itic = if is_active {
        config.initial_title_in_initial_class_active@
    } else {
        config.initial_title_in_initial_class@
    };
    let itc = if is_active {
        config.initial_title_in_class_active@
    } else {
        config.initial_title_in_class@
    };
    let tic = if is_active {
        config.title_in_initial_class_active@
    } else {
        config.title_in_initial_class@
    };
    let tc = if is_active {
        config.title_in_class_active@
    } else {
        config.title_in_class@
    };
    let ic = if is_active {
        config.initial_class_active@
    } else {
        config.initial_class@
    };
    let c = if is_active {
        config.class_active@
    } else {
        config.class@
    };
    if let Some((r, i, cap)) = title_match(itic, initial_class, initial_title) {
        Some(status_of(is_active, IconConfigModel::InitialTitleInInitialClass(r, i, cap)))
    } else if let Some((r, i, cap)) = title_match(itc, class, initial_title) {
        Some(status_of(is_active, IconConfigModel::InitialTitleInClass(r, i, cap)))
    } else if let Some((r, i, cap)) = title_match(tic, initial_class, title) {
        Some(status_of(is_active, IconConfigModel::TitleInInitialClass(r, i, cap)))
    } else if let Some((r, i, cap)) = title_match(tc, class, title) {
        Some(status_of(is_active, IconConfigModel::TitleInClass(r, i, cap)))
    } else if let Some((r, i)) = class_match(ic, class) {
        Some(status_of(is_active, IconConfigModel::InitialClass(r, i)))
    } else if let Some((r, i)) = class_match(c, class) {
        Some(status_of(is_active, IconConfigModel::Class(r, i)))
    } else {
        None
    }
}

/// The rule a window gets (see [`Renamer::parse_icon`]).
///
/// An active window takes the rule of the active tables; failing that, the
/// rule of the other tables; failing that, the `DEFAULT` rule of the active
/// tables, or else the `DEFAULT` rule of the other tables marked active, or
/// else the icon `no icon`. Another window takes the rule of the other
/// tables, or else their `DEFAULT` rule, or else the icon `no icon`.
pub open spec fn chosen_icon(
    config: ConfigFile,
    initial_class: Seq<char>,
    class: Seq<char>,
    initial_title: Seq<char>,
    title: Seq<char>,
    is_active: bool,
) -> IconStatusModel {
    let icon = icon_lookup(config, initial_class, class, initial_title, title, false);
    let icon_active = icon_lookup(config, initial_class, class, initial_title, title, true);
    let default = icon_lookup(config, "DEFAULT"@, "DEFAULT"@, ""@, ""@, false);
    let default_active = icon_lookup(config, "DEFAULT"@, "DEFAULT"@, ""@, ""@, true);
    let icon_default = match default {
        Some(i) => i,
        None => IconStatusModel::Inactive(IconConfigModel::Default("no icon"@)),
    };
    let icon_default_active = match default_active {
        Some(i) => i,
        None => match default {
            Some(i) => IconStatusModel::Active(
                IconConfigModel::Class(i.config().parts().0, i.config().parts().1),
            ),
            None => IconStatusModel::Active(IconConfigModel::Default("no icon"@)),
        },
    };
    if is_active {
        match icon_active {
            Some(i) => i,
            None => match icon {
                Some(i) => i,
                None => icon_default_active,
            },
        }
    } else {
        match icon {
            Some(i) => i,
            None => icon_default,
        }
    }
}

fn wrap_status(is_active: bool, config: IconConfig) -> (res: IconStatus)
    ensures
        res@ == status_of(is_active, config@),
{
    if is_active {
        IconStatus::Active(config)
    } else {
        IconStatus::Inactive(config)
    }
}

impl Renamer {
    /// The rule a window gets from the tables for active windows
    /// (`is_active`) or for the others, in the order of priority that
    /// [`icon_lookup`] gives.
    pub fn find_icon(
        &self,
        initial_class: &str,
        class: &str,
        initial_title: &str,
        title: &str,
        is_active: bool,
        config: &ConfigFile,
    ) -> (res: Option<IconStatus>)
        ensures
            match res {
                Some(s) => icon_lookup(
                    *config,
                    initial_class@,
                    class@,
                    initial_title@,
                    title@,
                    is_active,
                ) == Some(s@),
                None => icon_lookup(
                    *config,
                    initial_class@,
                    class@,
                    initial_title@,
                    title@,
                    is_active,
                ) is None,
            },
    {
        let (
            list_initial_title_in_initial_class,
            list_initial_title_in_class,
            list_title_in_initial_class,
            list_title_in_class,
            list_initial_class,
            list_class,
        ) = if is_active {
            (
                &config.initial_title_in_initial_class_active,
                &config.initial_title_in_class_active,
                &config.title_in_initial_class_active,
                &config.title_in_class_active,
                &config.initial_class_active,
                &config.class_active,
            )
        } else {
            (
                &config.initial_title_in_initial_class,
                &config.initial_title_in_class,
                &config.title_in_initial_class,
                &config.title_in_class,
                &config.initial_class,
                &config.class,
            )
        };
        if let Some((rule, icon, captures)) = find_title_in_class_helper(
            list_initial_title_in_initial_class,
            initial_class,
            initial_title,
        ) {
            return Some(
                wrap_status(is_active, IconConfig::InitialTitleInInitialClass(rule, icon, captures)),
            );
        }
        if let Some((rule, icon, captures)) = find_title_in_class_helper(
            list_initial_title_in_class,
            class,
            initial_title,
        ) {
            return Some(
                wrap_status(is_active, IconConfig::InitialTitleInClass(rule, icon, captures)),
            );
        }
        if let Some((rule, icon, captures)) = find_title_in_class_helper(
            list_title_in_initial_class,
            initial_class,
            title,
        ) {
            return Some(
                wrap_status(is_active, IconConfig::TitleInInitialClass(rule, icon, captures)),
            );
        }
        if let Some((rule, icon, captures)) = find_title_in_class_helper(
            list_title_in_class,
            class,
            title,
        ) {
            return Some(wrap_status(is_active, IconConfig::TitleInClass(rule, icon, captures)));
        }
        if let Some((rule, icon)) = find_class_helper(list_initial_class, class) {
            return Some(wrap_status(is_active, IconConfig::InitialClass(rule, icon)));
        }
        if let Some((rule, icon)) = find_class_helper(list_class, class) {
            return Some(wrap_status(is_active, IconConfig::Class(rule, icon)));
        }
        None
    }

    /// The rule a window gets, by [`chosen_icon`]: the window's own rule
    /// from the active tables (for the focused window) or the others, else a
    /// `DEFAULT` rule, else the icon `no icon`.
    pub fn parse_icon(
        &self,
        initial_class: String,
        class: String,
        initial_title: String,
        title: String,
        is_active: bool,
        config: &ConfigFile,
    ) -> (res: IconStatus)
        ensures
            res@ == chosen_icon(*config, initial_class@, class@, initial_title@, title@, is_active),
    {
        let icon = self.find_icon(
            initial_class.as_str(),
            class.as_str(),
            initial_title.as_str(),
            title.as_str(),
            false,
            config,
        );
        let icon_active = self.find_icon(
            initial_class.as_str(),
            class.as_str(),
            initial_title.as_str(),
            title.as_str(),
            true,
            config,
        );
        if is_active {
            if let Some(i) = icon_active {
                return i;
            }
            if let Some(i) = icon {
                return i;
            }
            if let Some(i) = self.find_icon("DEFAULT", "DEFAULT", "", "", true, config) {
                return i;
            }
            match self.find_icon("DEFAULT", "DEFAULT", "", "", false, config) {
                Some(i) => IconStatus::Active(IconConfig::Class(i.rule(), i.icon())),
                None => IconStatus::Active(IconConfig::Default("no icon".to_string())),
            }
        } else {
            match icon {
                Some(i) => i,
                None => match self.find_icon("DEFAULT", "DEFAULT", "", "", false, config) {
                    Some(i) => i,
                    None => IconStatus::Inactive(IconConfig::Default("no icon".to_string())),
                },
            }
        }
    }
}


// ---------------------------------------------------------------------------
// Laws of the icon choice
// ---------------------------------------------------------------------------

/// A window that is not focused always gets a rule from the tables for
/// unfocused windows (or their fallback), never one marked active.
pub proof fn law_unfocused_window_gets_inactive_rule(
    config: ConfigFile,
    initial_class: Seq<char>,
    class: Seq<char>,
    initial_title: Seq<char>,
    title: Seq<char>,
)
    ensures
        chosen_icon(config, initial_class, class, initial_title, title, false) is Inactive,
{
}

/// A focused window that an active table matches gets that active rule,
/// whatever the other tables say.
pub proof fn law_active_rule_wins(
    config: ConfigFile,
    initial_class: Seq<char>,
    class: Seq<char>,
    initial_title: Seq<char>,
    title: Seq<char>,
)
    requires
        icon_lookup(config, initial_class, class, initial_title, title, true) is Some,
    ensures
        chosen_icon(config, initial_class, class, initial_title, title, true) == icon_lookup(
            config,
            initial_class,
            class,
            initial_title,
            title,
            true,
        )->0,
        chosen_icon(config, initial_class, class, initial_title, title, true) is Active,
{
}

/// A window that no table matches gets the `DEFAULT` rule of the tables it
/// looks in, or the icon `no icon` when there is none.
pub proof fn law_unmatched_window_gets_default(
    config: ConfigFile,
    initial_class: Seq<char>,
    class: Seq<char>,
    initial_title: Seq<char>,
    title: Seq<char>,
)
    requires
        icon_lookup(config, initial_class, class, initial_title, title, false) is None,
    ensures
        chosen_icon(config, initial_class, class, initial_title, title, false) == match icon_lookup(
            config,
            "DEFAULT"@,
            "DEFAULT"@,
            ""@,
            ""@,
            false,
        ) {
            Some(i) => i,
            None => IconStatusModel::Inactive(IconConfigModel::Default("no icon"@)),
        },
{
}

/// Title rules come before class rules: a window that a title table
/// matches on its class and title never gets a class rule.
pub proof fn law_title_rule_before_class_rule(
    config: ConfigFile,
    initial_class: Seq<char>,
    class: Seq<char>,
    initial_title: Seq<char>,
    title: Seq<char>,
    is_active: bool,
)
    requires
        title_match(
            if is_active {
                config.title_in_class_active@
            } else {
                config.title_in_class@
            },
            class,
            title,
        ) is Some,
    ensures
        icon_lookup(config, initial_class, class, initial_title, title, is_active) matches Some(s)
            && !(s.config() is Class) && !(s.config() is InitialClass),
{
}

/// The first matching entry decides: the rule found in a class table is
/// the first entry whose pattern matches, and no earlier entry matches.
pub proof fn law_first_matching_rule_decides(rules: Seq<(Rule, String)>, class: Seq<char>)
    ensures
        class_match(rules, class) matches Some((pattern, icon)) ==> exists|i: int|
            {
                &&& 0 <= i < rules.len()
                &&& rules[i].0@ == pattern
                &&& rules[i].1@ == icon
                &&& regex_matches(pattern, class)
                &&& forall|j: int| 0 <= j < i ==> !regex_matches(#[trigger] rules[j].0@, class)
            },
        class_match(rules, class) is None ==> forall|j: int|
            0 <= j < rules.len() ==> !regex_matches(#[trigger] rules[j].0@, class),
{
    lemma_first_match(rules, class);
    if let Some(i) = first_match(rules, class) {
        assert(class_match(rules, class) == Some((rules[i].0@, rules[i].1@)));
    }
}


/// Wraps `c` as coming from the active tables (`is_active`) or the others.
pub open spec fn marked(is_active: bool, c: IconConfigModel) -> IconStatusModel {
    if is_active {
        IconStatusModel::Active(c)
    } else {
        IconStatusModel::Inactive(c)
    }
}

/// Whether `j` is the first entry of `rules` whose pattern matches `text`.
pub open spec fn first_entry_matching<T>(rules: Seq<(Rule, T)>, text: Seq<char>, j: int) -> bool {
    &&& 0 <= j < rules.len()
    &&& regex_matches(rules[j].0@, text)
    &&& forall|k: int| 0 <= k < j ==> !regex_matches(#[trigger] rules[k].0@, text)
}

/// Whether no entry of `rules` has a pattern matching `text`.
pub open spec fn no_entry_matching<T>(rules: Seq<(Rule, T)>, text: Seq<char>) -> bool {
    forall|k: int| 0 <= k < rules.len() ==> !regex_matches(#[trigger] rules[k].0@, text)
}

proof fn lemma_first_match_is(rules: Seq<(Rule, String)>, text: Seq<char>, j: int)
    requires
        first_entry_matching(rules, text, j),
    ensures
        class_match(rules, text) == Some((rules[j].0@, rules[j].1@)),
{
    lemma_first_match_at(rules, text, j);
}

proof fn lemma_first_match_none(rules: Seq<(Rule, String)>, text: Seq<char>)
    requires
        no_entry_matching(rules, text),
    ensures
        class_match(rules, text) is None,
{
    lemma_first_match_at(rules, text, rules.len() as int);
}

/// The order in which the tables are searched, and which tables: for a
/// focused window (`is_active`) the `_active` tables, for another window the
/// others. The title tables come first, in this order: titles on the initial
/// class with the initial title, on the class with the initial title, on
/// the initial class with the title, on the class with the title; the first
/// of them that yields a rule decides. When none does, the initial-class
/// table decides by its first entry whose pattern matches the class, and
/// when none of its entries matches, the class table does the same.
pub proof fn law_lookup_order(
    config: ConfigFile,
    initial_class: Seq<char>,
    class: Seq<char>,
    initial_title: Seq<char>,
    title: Seq<char>,
    is_active: bool,
)
    ensures
        ({
            let itic = if is_active {
                config.initial_title_in_initial_class_active@
            } else {
                config.initial_title_in_initial_class@
            };
            let itc = if is_active {
                config.initial_title_in_class_active@
            } else {
                config.initial_title_in_class@
            };
            let tic = if is_active {
                config.title_in_initial_class_active@
            } else {
                config.title_in_initial_class@
            };
            let tc = if is_active {
                config.title_in_class_active@
            } else {
                config.title_in_class@
            };
            let ic = if is_active {
                config.initial_class_active@
            } else {
                config.initial_class@
            };
            let c = if is_active {
                config.class_active@
            } else {
                config.class@
            };
            let found = icon_lookup(config, initial_class, class, initial_title, title, is_active);
            &&& title_match(itic, initial_class, initial_title) matches Some((r, i, cap)) ==> found
                == Some(marked(is_active, IconConfigModel::InitialTitleInInitialClass(r, i, cap)))
            &&& title_match(itic, initial_class, initial_title) is None ==> (title_match(
                itc,
                class,
                initial_title,
            ) matches Some((r, i, cap)) ==> found == Some(
                marked(is_active, IconConfigModel::InitialTitleInClass(r, i, cap)),
            ))
            &&& title_match(itic, initial_class, initial_title) is None && title_match(
                itc,
                class,
                initial_title,
            ) is None ==> (title_match(tic, initial_class, title) matches Some((r, i, cap))
                ==> found == Some(marked(is_active, IconConfigModel::TitleInInitialClass(r, i, cap))))
            &&& title_match(itic, initial_class, initial_title) is None && title_match(
                itc,
                class,
                initial_title,
            ) is None && title_match(tic, initial_class, title) is None ==> (title_match(
                tc,
                class,
                title,
            ) matches Some((r, i, cap)) ==> found == Some(
                marked(is_active, IconConfigModel::TitleInClass(r, i, cap)),
            ))
            &&& forall|j: int|
                title_match(itic, initial_class, initial_title) is None && title_match(
                    itc,
                    class,
                    initial_title,
                ) is None && title_match(tic, initial_class, title) is None && title_match(
                    tc,
                    class,
                    title,
                ) is None && #[trigger] first_entry_matching(ic, class, j) ==> found == Some(
                    marked(is_active, IconConfigModel::InitialClass(ic[j].0@, ic[j].1@)),
                )
            &&& forall|j: int|
                title_match(itic, initial_class, initial_title) is None && title_match(
                    itc,
                    class,
                    initial_title,
                ) is None && title_match(tic, initial_class, title) is None && title_match(
                    tc,
                    class,
                    title,
                ) is None && no_entry_matching(ic, class) && #[trigger] first_entry_matching(
                    c,
                    class,
                    j,
                ) ==> found == Some(marked(is_active, IconConfigModel::Class(c[j].0@, c[j].1@)))
            &&& title_match(itic, initial_class, initial_title) is None && title_match(
                itc,
                class,
                initial_title,
            ) is None && title_match(tic, initial_class, title) is None && title_match(
                tc,
                class,
                title,
            ) is None && no_entry_matching(ic, class) && no_entry_matching(c, class) ==> found
                is None
        }),
{
    let ic = if is_active {
        config.initial_class_active@
    } else {
        config.initial_class@
    };
    let c = if is_active {
        config.class_active@
    } else {
        config.class@
    };
    assert forall|j: int| #[trigger] first_entry_matching(ic, class, j) implies class_match(
        ic,
        class,
    ) == Some((ic[j].0@, ic[j].1@)) by {
        lemma_first_match_is(ic, class, j);
    }
    assert forall|j: int| #[trigger] first_entry_matching(c, class, j) implies class_match(
        c,
        class,
    ) == Some((c[j].0@, c[j].1@)) by {
        lemma_first_match_is(c, class, j);
    }
    if no_entry_matching(ic, class) {
        lemma_first_match_none(ic, class);
    }
    if no_entry_matching(c, class) {
        lemma_first_match_none(c, class);
    }
}


/// How a title table chooses a rule for a window: only the first entry
/// whose class pattern matches the class is looked at, and in its title
/// rules the first whose pattern matches the title gives the pattern, the
/// icon and the capture groups of that title match. When no class pattern
/// matches, or the first matching entry has no title rule that matches, the
/// table gives nothing (later entries are not tried).
pub proof fn law_title_rule_choice(
    rules: Seq<(Rule, Vec<(Rule, String)>)>,
    class: Seq<char>,
    title: Seq<char>,
)
    ensures
        forall|j: int, k: int|
            #[trigger] first_entry_matching(rules, class, j) && #[trigger] first_entry_matching(
                rules[j].1@,
                title,
                k,
            ) ==> title_match(rules, class, title) == Some(
                (
                    rules[j].1@[k].0@,
                    rules[j].1@[k].1@,
                    captured_texts(rules[j].1@[k].0@, title),
                ),
            ),
        forall|j: int|
            #[trigger] first_entry_matching(rules, class, j) && no_entry_matching(
                rules[j].1@,
                title,
            ) ==> title_match(rules, class, title) is None,
        no_entry_matching(rules, class) ==> title_match(rules, class, title) is None,
{
    assert forall|j: int, k: int|
        #[trigger] first_entry_matching(rules, class, j) && #[trigger] first_entry_matching(
            rules[j].1@,
            title,
            k,
        ) implies title_match(rules, class, title) == Some(
        (rules[j].1@[k].0@, rules[j].1@[k].1@, captured_texts(rules[j].1@[k].0@, title)),
    ) by {
        lemma_first_match_at(rules, class, j);
        lemma_first_match_at(rules[j].1@, title, k);
    }
    assert forall|j: int|
        #[trigger] first_entry_matching(rules, class, j) && no_entry_matching(
            rules[j].1@,
            title,
        ) implies title_match(rules, class, title) is None by {
        lemma_first_match_at(rules, class, j);
        lemma_first_match_at(rules[j].1@, title, rules[j].1@.len() as int);
    }
    if no_entry_matching(rules, class) {
        lemma_first_match_at(rules, class, rules.len() as int);
    }
}

} // verus!
