//! Rendering: format strings with `{name}` placeholders, superscript counters,
//! and the text of each client and workspace.
use crate::config::{ConfigFile, ConfigFormatRaw};
use crate::renamer::icon::IconStatus;
use crate::renamer::{same_client, AppClient, Renamer};
use std::collections::HashMap;
use crate::text::{
    chars_of, contains_char, decimal, i32_to_string, push_all, replace, replace_all, string_of,
    to_owned_string,
};
use vstd::prelude::*;

verus! {

broadcast use {vstd::string::group_string_axioms, vstd::std_specs::hash::group_hash_axioms};

/// The variables a format string can name, each with its text. They are
/// kept as the list of settings made, a later one for a name replacing an
/// earlier, and seen as the map `vars_map` of that list; `strfmt` gets them
/// as a `HashMap`.
pub struct FormatVars {
    entries: Vec<(String, String)>,
}

/// The variables of `entries`, a later entry for a name replacing an earlier.
pub open spec fn vars_map(entries: Seq<(String, String)>) -> Map<Seq<char>, Seq<char>>
    decreases entries.len(),
{
    if entries.len() == 0 {
        Map::empty()
    } else {
        vars_map(entries.drop_last()).insert(entries.last().0@, entries.last().1@)
    }
}

impl View for FormatVars {
    type V = Map<Seq<char>, Seq<char>>;

    closed spec fn view(&self) -> Map<Seq<char>, Seq<char>> {
        vars_map(self.entries@)
    }
}

impl FormatVars {
    /// No variables.
    pub fn new() -> (res: Self)
        ensures
            res@ == Map::<Seq<char>, Seq<char>>::empty(),
    {
        FormatVars { entries: Vec::new() }
    }

    /// Sets the variable `name` to `value`, replacing any earlier value.
    pub fn insert(&mut self, name: String, value: String)
        ensures
            final(self)@ == old(self)@.insert(name@, value@),
    {
        self.entries.push((name, value));
        assert(self.entries@.drop_last() =~= old(self).entries@);
    }
}

/// What `strfmt::strfmt` gives for the format string `fmt` and the
/// variables `vars`: `None` where it reports an error.
pub uninterp spec fn strfmt_result(fmt: Seq<char>, vars: Map<Seq<char>, Seq<char>>) -> Option<
    Seq<char>,
>;

/// Formats `fmt` with `strfmt::strfmt`, the variables put in a `HashMap`
/// (a later entry for a name replacing an earlier, as `vars@` does). The
/// contract claims that the outcome is `strfmt_result` of the format string
/// and the variables, an error giving `None`.
#[verifier::external_body]
fn strfmt_call(fmt: &str, vars: &FormatVars) -> (res: Option<String>)
    ensures
        match res {
            Some(s) => strfmt_result(fmt@, vars@) == Some(s@),
            None => strfmt_result(fmt@, vars@) is None,
        },
{
    let map: std::collections::HashMap<String, String> = vars.entries.iter().cloned().collect();
    strfmt::strfmt(fmt, &map).ok()
}

/// Whether `s` holds both an opening and a closing brace.
pub open spec fn has_braces(s: Seq<char>) -> bool {
    s.contains('{') && s.contains('}')
}

/// One round of substitution: `s` formatted with `vars`, or `s` itself where
/// formatting fails.
pub open spec fn format_round(s: Seq<char>, vars: Map<Seq<char>, Seq<char>>) -> Seq<char> {
    match strfmt_result(s, vars) {
        Some(r) => r,
        None => s,
    }
}

/// Repeated substitution: rounds go on while the text holds braces and a round
/// changes it, at most `rounds + 1` rounds.
pub open spec fn format_rounds(s: Seq<char>, vars: Map<Seq<char>, Seq<char>>, rounds: nat) -> Seq<
    char,
>
    decreases rounds,
{
    if !has_braces(s) {
        s
    } else {
        let f = format_round(s, vars);
        if f == s {
            s
        } else if rounds == 0 {
            f
        } else {
            format_rounds(f, vars, (rounds - 1) as nat)
        }
    }
}

/// What [`formatter`] gives: at most four rounds of substitution, so that a
/// value may itself name variables.
pub open spec fn formatted(fmt: Seq<char>, vars: Map<Seq<char>, Seq<char>>) -> Seq<char> {
    format_rounds(fmt, vars, 3)
}

/// Fills the placeholders of `fmt` from `vars`, again and again while the
/// text holds braces and a round changes it, for at most four rounds.
pub fn formatter(fmt: &str, vars: &FormatVars) -> (res: String)
    ensures
        res@ == formatted(fmt@, vars@),
{
    let mut result = to_owned_string(fmt);
    let mut i: usize = 0;
    loop
        invariant
            i <= 3,
            format_rounds(result@, vars@, (3 - i) as nat) == formatted(fmt@, vars@),
        decreases 4 - i,
    {
        if !(contains_char(result.as_str(), '{') && contains_char(result.as_str(), '}')) {
            return result;
        }
        let formatted = match strfmt_call(result.as_str(), vars) {
            Some(f) => f,
            None => result.clone(),
        };
        if formatted == result {
            return result;
        }
        result = formatted;
        i = i + 1;
        if i > 3 {
            return result;
        }
    }
}

/// The superscript form of a decimal digit.
pub open spec fn superscript_digit(c: char) -> char {
    if c == '0' { '\u{2070}' }
    else if c == '1' { '\u{b9}' }
    else if c == '2' { '\u{b2}' }
    else if c == '3' { '\u{b3}' }
    else if c == '4' { '\u{2074}' }
    else if c == '5' { '\u{2075}' }
    else if c == '6' { '\u{2076}' }
    else if c == '7' { '\u{2077}' }
    else if c == '8' { '\u{2078}' }
    else { '\u{2079}' }
}

/// The decimal notation of `n` in superscript digits.
pub open spec fn superscript(n: int) -> Seq<char> {
    decimal(n).map_values(|c: char| superscript_digit(c))
}

fn superscript_of(c: char) -> (res: char)
    ensures
        res == superscript_digit(c),
{
    if c == '0' { '\u{2070}' }
    else if c == '1' { '\u{b9}' }
    else if c == '2' { '\u{b2}' }
    else if c == '3' { '\u{b3}' }
    else if c == '4' { '\u{2074}' }
    else if c == '5' { '\u{2075}' }
    else if c == '6' { '\u{2076}' }
    else if c == '7' { '\u{2077}' }
    else if c == '8' { '\u{2078}' }
    else { '\u{2079}' }
}

/// The decimal notation of a non-negative `number` in superscript digits.
pub fn to_superscript(number: i32) -> (res: String)
    requires
        number >= 0,
    ensures
        res@ == superscript(number as int),
{
    let digits = i32_to_string(number);
    let chars = chars_of(digits.as_str());
    let mut out: Vec<char> = Vec::new();
    let mut i: usize = 0;
    while i < chars.len()
        invariant
            i <= chars.len(),
            chars@ == decimal(number as int),
            out@ == chars@.take(i as int).map_values(|c: char| superscript_digit(c)),
        decreases chars.len() - i,
    {
        out.push(superscript_of(chars[i]));
        i = i + 1;
        assert(out@ =~= chars@.take(i as int).map_values(|c: char| superscript_digit(c)));
    }
    assert(chars@.take(i as int) =~= chars@);
    string_of(&out)
}


// ---------------------------------------------------------------------------
// Counting duplicate clients
// ---------------------------------------------------------------------------

/// The clients of `s` with the given focus and fullscreen state, in order.
pub open spec fn select_clients(s: Seq<AppClient>, active: bool, fullscreen: bool) -> Seq<AppClient>
    decreases s.len(),
{
    if s.len() == 0 {
        seq![]
    } else {
        let rest = select_clients(s.drop_last(), active, fullscreen);
        if s.last().is_active == active && s.last().is_fullscreen == fullscreen {
            rest.push(s.last())
        } else {
            rest
        }
    }
}

/// The order in which clients are counted when deduplicating: the active
/// ones first, and among clients of the same focus the fullscreen ones first;
/// otherwise the order of `s` (what a stable sort by fullscreen state, then a
/// stable sort by focus, gives).
pub open spec fn dedup_order(s: Seq<AppClient>) -> Seq<AppClient> {
    select_clients(s, true, true) + select_clients(s, true, false) + select_clients(s, false, true)
        + select_clients(s, false, false)
}

/// The index of the first entry of `counted` of which `c` counts as a
/// duplicate.
pub open spec fn first_same(counted: Seq<(AppClient, int)>, c: AppClient) -> Option<int>
    decreases counted.len(),
{
    if counted.len() == 0 {
        None
    } else if same_client(counted[0].0, c) {
        Some(0)
    } else {
        match first_same(counted.drop_first(), c) {
            Some(i) => Some(i + 1),
            None => None,
        }
    }
}

/// Counting one more client: the first entry it duplicates gets one more,
/// or else it is added with a count of one.
pub open spec fn count_client(counted: Seq<(AppClient, int)>, c: AppClient) -> Seq<(AppClient, int)> {
    match first_same(counted, c) {
        Some(i) => counted.update(i, (counted[i].0, counted[i].1 + 1)),
        None => counted.push((c, 1)),
    }
}

/// The clients of `s` counted in order.
pub open spec fn counted_clients(s: Seq<AppClient>) -> Seq<(AppClient, int)>
    decreases s.len(),
{
    if s.len() == 0 {
        seq![]
    } else {
        count_client(counted_clients(s.drop_last()), s.last())
    }
}

/// The sum of the counts.
pub open spec fn total_count(counted: Seq<(AppClient, int)>) -> int
    decreases counted.len(),
{
    if counted.len() == 0 {
        0
    } else {
        total_count(counted.drop_last()) + counted.last().1
    }
}

proof fn lemma_first_same_at(counted: Seq<(AppClient, int)>, c: AppClient, i: int)
    requires
        0 <= i <= counted.len(),
        forall|j: int| 0 <= j < i ==> !same_client(#[trigger] counted[j].0, c),
        i < counted.len() ==> same_client(counted[i].0, c),
    ensures
        first_same(counted, c) == (if i < counted.len() { Some(i) } else { None::<int> }),
    decreases i,
{
    if i > 0 {
        let rest = counted.drop_first();
        assert(!same_client(counted[0].0, c));
        assert forall|j: int| 0 <= j < i - 1 implies !same_client(#[trigger] rest[j].0, c) by {
            assert(rest[j] == counted[j + 1]);
        }
        if i < counted.len() {
            assert(rest[i - 1] == counted[i]);
        }
        lemma_first_same_at(rest, c, i - 1);
    }
}

proof fn lemma_first_same_none(counted: Seq<(AppClient, int)>, c: AppClient)
    requires
        first_same(counted, c) is None,
    ensures
        forall|j: int| 0 <= j < counted.len() ==> !same_client(#[trigger] counted[j].0, c),
    decreases counted.len(),
{
    if counted.len() > 0 {
        let rest = counted.drop_first();
        lemma_first_same_none(rest, c);
        assert forall|j: int| 0 <= j < counted.len() implies !same_client(
            #[trigger] counted[j].0,
            c,
        ) by {
            if j > 0 {
                assert(counted[j] == rest[j - 1]);
            }
        }
    }
}

/// With deduplication no window is left beside an earlier entry it
/// duplicates: of two entries, the later never counts as a duplicate of the
/// earlier, so each icon is shown once with its count.
pub proof fn law_dedup_entries_distinct(s: Seq<AppClient>)
    ensures
        forall|i: int, j: int|
            0 <= i < j < counted_clients(s).len() ==> !same_client(
                #[trigger] counted_clients(s)[i].0,
                #[trigger] counted_clients(s)[j].0,
            ),
    decreases s.len(),
{
    if s.len() > 0 {
        let prev = counted_clients(s.drop_last());
        let c = s.last();
        law_dedup_entries_distinct(s.drop_last());
        lemma_first_same_bounds(prev, c);
        let now = counted_clients(s);
        match first_same(prev, c) {
            Some(k) => {
                assert forall|i: int, j: int| 0 <= i < j < now.len() implies !same_client(
                    #[trigger] now[i].0,
                    #[trigger] now[j].0,
                ) by {
                    assert(now[i].0 == prev[i].0);
                    assert(now[j].0 == prev[j].0);
                }
            },
            None => {
                lemma_first_same_none(prev, c);
                assert forall|i: int, j: int| 0 <= i < j < now.len() implies !same_client(
                    #[trigger] now[i].0,
                    #[trigger] now[j].0,
                ) by {
                    assert(now[i] == prev[i]);
                    if j < prev.len() {
                        assert(now[j] == prev[j]);
                    } else {
                        assert(now[j].0 == c);
                    }
                }
            },
        }
    }
}

proof fn lemma_first_same_bounds(counted: Seq<(AppClient, int)>, c: AppClient)
    ensures
        first_same(counted, c) matches Some(i) ==> 0 <= i < counted.len(),
    decreases counted.len(),
{
    if counted.len() > 0 {
        lemma_first_same_bounds(counted.drop_first(), c);
    }
}

proof fn lemma_total_update(counted: Seq<(AppClient, int)>, i: int, e: (AppClient, int))
    requires
        0 <= i < counted.len(),
    ensures
        total_count(counted.update(i, e)) == total_count(counted) - counted[i].1 + e.1,
    decreases counted.len(),
{
    let u = counted.update(i, e);
    if i == counted.len() - 1 {
        assert(u.drop_last() =~= counted.drop_last());
    } else {
        assert(u.drop_last() =~= counted.drop_last().update(i, e));
        lemma_total_update(counted.drop_last(), i, e);
    }
}

proof fn lemma_total_push(counted: Seq<(AppClient, int)>, e: (AppClient, int))
    ensures
        total_count(counted.push(e)) == total_count(counted) + e.1,
{
    assert(counted.push(e).drop_last() =~= counted);
}

/// Counting keeps the total: every client counted goes to exactly one entry,
/// and every entry has a count of at least one.
pub proof fn lemma_counted_total(s: Seq<AppClient>)
    ensures
        total_count(counted_clients(s)) == s.len(),
        forall|i: int|
            0 <= i < counted_clients(s).len() ==> 1 <= #[trigger] counted_clients(s)[i].1 <= s.len(),
    decreases s.len(),
{
    if s.len() > 0 {
        let prev = counted_clients(s.drop_last());
        lemma_counted_total(s.drop_last());
        lemma_first_same_bounds(prev, s.last());
        lemma_counted_entry_bound(prev);
        match first_same(prev, s.last()) {
            Some(i) => {
                lemma_total_update(prev, i, (prev[i].0, prev[i].1 + 1));
            },
            None => {
                lemma_total_push(prev, (s.last(), 1));
            },
        }
        lemma_counted_entry_bound(counted_clients(s));
    }
}

proof fn lemma_counted_entry_bound(counted: Seq<(AppClient, int)>)
    requires
        forall|i: int| 0 <= i < counted.len() ==> 1 <= #[trigger] counted[i].1,
    ensures
        forall|i: int| 0 <= i < counted.len() ==> #[trigger] counted[i].1 <= total_count(counted),
    decreases counted.len(),
{
    if counted.len() > 0 {
        let prev = counted.drop_last();
        assert forall|i: int| 0 <= i < prev.len() implies 1 <= #[trigger] prev[i].1 by {
            assert(prev[i] == counted[i]);
        }
        lemma_counted_entry_bound(prev);
        assert forall|i: int| 0 <= i < counted.len() implies #[trigger] counted[i].1 <= total_count(
            counted,
        ) by {
            if i < counted.len() - 1 {
                assert(prev[i] == counted[i]);
                lemma_total_nonneg(prev);
            } else {
                lemma_total_nonneg(prev);
            }
        }
    }
}

proof fn lemma_total_nonneg(counted: Seq<(AppClient, int)>)
    requires
        forall|i: int| 0 <= i < counted.len() ==> 1 <= #[trigger] counted[i].1,
    ensures
        total_count(counted) >= 0,
    decreases counted.len(),
{
    if counted.len() > 0 {
        let prev = counted.drop_last();
        assert forall|i: int| 0 <= i < prev.len() implies 1 <= #[trigger] prev[i].1 by {
            assert(prev[i] == counted[i]);
        }
        lemma_total_nonneg(prev);
        assert(1 <= counted[counted.len() - 1].1);
    }
}


/// The counts of `counted`, taken as integers.
pub open spec fn counts_view(counted: Seq<(AppClient, i32)>) -> Seq<(AppClient, int)> {
    counted.map_values(|e: (AppClient, i32)| (e.0, e.1 as int))
}

/// The clients with their counts. Without deduplication every client is
/// counted once, in order. With it, the clients are taken in
/// [`dedup_order`] and each is counted on the first earlier entry it
/// duplicates ([`same_client`]), else added with a count of one.
pub fn generate_counted_clients(clients: Vec<AppClient>, need_dedup: bool) -> (res: Vec<
    (AppClient, i32),
>)
    requires
        need_dedup ==> clients@.len() <= i32::MAX,
    ensures
        need_dedup ==> counts_view(res@) == counted_clients(dedup_order(clients@)),
        !need_dedup ==> counts_view(res@) == clients@.map_values(|c: AppClient| (c, 1int)),
{
    let ghost input = clients@;
    if !need_dedup {
        let mut res: Vec<(AppClient, i32)> = Vec::new();
        for c in it: clients
            invariant
                it.seq() == input,
                counts_view(res@) == input.take(it.index() as int).map_values(
                    |c: AppClient| (c, 1int),
                ),
        {
            let ghost before = res@;
            res.push((c, 1));
            proof {
                let t = input.take(it.index() + 1);
                assert(t =~= input.take(it.index() as int).push(c));
                assert(counts_view(res@) =~= counts_view(before).push((c, 1int)));
                assert(t.map_values(|c: AppClient| (c, 1int)) =~= input.take(
                    it.index() as int,
                ).map_values(|c: AppClient| (c, 1int)).push((c, 1int)));
            }
        }
        assert(input.take(input.len() as int) =~= input);
        return res;
    }
    let mut active_fullscreen: Vec<AppClient> = Vec::new();
    let mut active_other: Vec<AppClient> = Vec::new();
    let mut inactive_fullscreen: Vec<AppClient> = Vec::new();
    let mut inactive_other: Vec<AppClient> = Vec::new();
    for c in it: clients
        invariant
            it.seq() == input,
            active_fullscreen@ == select_clients(input.take(it.index() as int), true, true),
            active_other@ == select_clients(input.take(it.index() as int), true, false),
            inactive_fullscreen@ == select_clients(input.take(it.index() as int), false, true),
            inactive_other@ == select_clients(input.take(it.index() as int), false, false),
    {
        assert(input.take(it.index() + 1).drop_last() =~= input.take(it.index() as int));
        if c.is_active {
            if c.is_fullscreen {
                active_fullscreen.push(c);
            } else {
                active_other.push(c);
            }
        } else {
            if c.is_fullscreen {
                inactive_fullscreen.push(c);
            } else {
                inactive_other.push(c);
            }
        }
    }
    assert(input.take(input.len() as int) =~= input);
    let mut order = active_fullscreen;
    order.append(&mut active_other);
    order.append(&mut inactive_fullscreen);
    order.append(&mut inactive_other);
    let ghost ordered = order@;
    assert(ordered == dedup_order(input));
    proof {
        assert(select_clients(input, true, true).len() + select_clients(input, true, false).len()
            + select_clients(input, false, true).len() + select_clients(input, false, false).len()
            == input.len()) by {
            lemma_select_partition(input);
        }
    }
    let mut state: Vec<(AppClient, i32)> = Vec::new();
    for c in it: order
        invariant
            it.seq() == ordered,
            ordered.len() <= i32::MAX,
            counts_view(state@) == counted_clients(ordered.take(it.index() as int)),
    {
        let ghost k = it.index();
        let ghost prefix = ordered.take(k as int);
        proof {
            lemma_counted_total(prefix);
            assert(ordered.take(k + 1).drop_last() =~= prefix);
        }
        let ghost prev = counted_clients(prefix);
        let mut j: usize = 0;
        let mut found = false;
        while j < state.len()
            invariant_except_break
                !found,
                j <= state.len(),
                counts_view(state@) == prev,
                forall|m: int| 0 <= m < j ==> !same_client(#[trigger] prev[m].0, c),
            ensures
                j <= state.len(),
                counts_view(state@) == prev,
                forall|m: int| 0 <= m < j ==> !same_client(#[trigger] prev[m].0, c),
                found ==> j < state.len() && same_client(prev[j as int].0, c),
                !found ==> j == state.len(),
            decreases state.len() - j,
        {
            let same = state[j].0 == c;
            assert(prev[j as int].0 == state@[j as int].0);
            if same {
                assert(same_client(state@[j as int].0, c));
                found = true;
                break;
            }
            assert(prev[j as int].0 == state@[j as int].0);
            j = j + 1;
        }
        proof {
            lemma_first_same_at(prev, c, j as int);
        }
        if found {
            let (rep, n) = state.remove(j);
            assert(n as int == prev[j as int].1);
            assert(n <= k);
            state.insert(j, (rep, n + 1));
            assert(counts_view(state@) =~= count_client(prev, c));
        } else {
            state.push((c, 1));
            assert(counts_view(state@) =~= count_client(prev, c));
        }
    }
    assert(ordered.take(ordered.len() as int) =~= ordered);
    state
}

proof fn lemma_select_partition(s: Seq<AppClient>)
    ensures
        select_clients(s, true, true).len() + select_clients(s, true, false).len()
            + select_clients(s, false, true).len() + select_clients(s, false, false).len()
            == s.len(),
    decreases s.len(),
{
    if s.len() > 0 {
        lemma_select_partition(s.drop_last());
    }
}


// ---------------------------------------------------------------------------
// The text of clients and workspaces
// ---------------------------------------------------------------------------

/// The windows of one workspace.
pub struct AppWorkspace {
    pub id: i32,
    pub clients: Vec<AppClient>,
}

impl AppWorkspace {
    /// A workspace with the given id and windows.
    pub fn new(id: i32, clients: Vec<AppClient>) -> (res: Self)
        ensures
            res.id == id,
            res.clients == clients,
    {
        AppWorkspace { id, clients }
    }
}

/// The variables every client format can name: the window's title and
/// class, its counter and the counter less one (plain and in superscript),
/// and the delimiter.
pub open spec fn base_vars(client: AppClient, counter: int, format: ConfigFormatRaw) -> Map<
    Seq<char>,
    Seq<char>,
> {
    Map::empty().insert("title"@, client.title@).insert("class"@, client.class@).insert(
        "counter"@,
        decimal(counter),
    ).insert("counter_unfocused"@, decimal(counter - 1)).insert(
        "counter_sup"@,
        superscript(counter),
    ).insert("counter_unfocused_sup"@, superscript(counter - 1)).insert("delim"@, format.delim@)
}

/// Whether the window is the focused one but its icon came from a table for
/// unfocused windows: then the active client format dresses the icon.
pub open spec fn dressed_as_active(client: AppClient) -> bool {
    client.is_active && client.matched_rule@ is Inactive
}

/// The variables after the icon is chosen, and the icon: for a window
/// [`dressed_as_active`], the active client format with its `{icon}` read as
/// `{default_icon}`, the rule's icon; otherwise the rule's icon.
pub open spec fn icon_vars(client: AppClient, counter: int, format: ConfigFormatRaw) -> (
    Map<Seq<char>, Seq<char>>,
    Seq<char>,
) {
    let vars = base_vars(client, counter, format);
    let rule_icon = client.matched_rule@.config().parts().1;
    if dressed_as_active(client) {
        let v = vars.insert("default_icon"@, rule_icon);
        (v, formatted(replace_all(format.client_active@, "{icon}"@, "{default_icon}"@), v))
    } else {
        (vars, rule_icon)
    }
}

/// The text of a window counted `counter` times: the variables are those of
/// [`icon_vars`] with the icon and the client formats added, and the format
/// used is the deduplicated one (when deduplication is on and the counter is
/// above one) or the plain one, each in its fullscreen form for a
/// fullscreen window.
pub open spec fn client_text(client: AppClient, counter: int, format: ConfigFormatRaw) -> Seq<char> {
    let (v, icon) = icon_vars(client, counter, format);
    let vars = v.insert("icon"@, icon).insert("client"@, format.client@).insert(
        "client_dup"@,
        format.client_dup@,
    ).insert("client_fullscreen"@, format.client_fullscreen@);
    let is_dedup = format.dedup && counter > 1;
    if client.is_fullscreen && is_dedup {
        formatted(format.client_dup_fullscreen@, vars)
    } else if is_dedup {
        formatted(format.client_dup@, vars)
    } else if client.is_fullscreen {
        formatted(format.client_fullscreen@, vars)
    } else {
        formatted(format.client@, vars)
    }
}

/// The parts joined with `sep` between each two.
pub open spec fn joined(parts: Seq<Seq<char>>, sep: Seq<char>) -> Seq<char>
    decreases parts.len(),
{
    if parts.len() == 0 {
        seq![]
    } else if parts.len() == 1 {
        parts[0]
    } else {
        joined(parts.drop_last(), sep) + sep + parts.last()
    }
}

/// The text between two clients of a workspace: `{delim}` formatted.
pub open spec fn delimiter(format: ConfigFormatRaw) -> Seq<char> {
    formatted("{delim}"@, Map::empty().insert("delim"@, format.delim@))
}

/// The clients of a workspace with their counts, deduplicated or not.
pub open spec fn workspace_counts(clients: Seq<AppClient>, dedup: bool) -> Seq<(AppClient, int)> {
    if dedup {
        counted_clients(dedup_order(clients))
    } else {
        clients.map_values(|c: AppClient| (c, 1int))
    }
}

/// The text of a workspace: the texts of its counted clients, joined by the
/// delimiter.
pub open spec fn workspace_text(clients: Seq<AppClient>, format: ConfigFormatRaw) -> Seq<char> {
    joined(
        workspace_counts(clients, format.dedup).map_values(
            |e: (AppClient, int)| client_text(e.0, e.1, format),
        ),
        delimiter(format),
    )
}

/// The text of each workspace by its id, a later workspace with the same id
/// replacing an earlier.
pub open spec fn workspaces_texts(workspaces: Seq<AppWorkspace>, format: ConfigFormatRaw) -> Map<
    i32,
    Seq<char>,
>
    decreases workspaces.len(),
{
    if workspaces.len() == 0 {
        Map::empty()
    } else {
        let w = workspaces.last();
        workspaces_texts(workspaces.drop_last(), format).insert(
            w.id,
            workspace_text(w.clients@, format),
        )
    }
}

/// The views of the texts of a map from workspace ids.
pub open spec fn texts_view(m: Map<i32, String>) -> Map<i32, Seq<char>> {
    m.map_values(|s: String| s@)
}

fn string_var(name: &str, value: String, vars: &mut FormatVars)
    ensures
        final(vars)@ == old(vars)@.insert(name@, value@),
{
    vars.insert(to_owned_string(name), value);
}

impl Renamer {
    /// The text of a window counted `counter` times (see [`client_text`]).
    pub fn handle_new_client(&self, client: &AppClient, counter: i32, config: &ConfigFile) -> (res:
        String)
        requires
            counter >= 1,
        ensures
            res@ == client_text(*client, counter as int, config.format),
    {
        let config_format = &config.format;
        let is_dedup = config_format.dedup && (counter > 1);
        let mut vars = FormatVars::new();
        string_var("title", client.title.clone(), &mut vars);
        string_var("class", client.class.clone(), &mut vars);
        string_var("counter", i32_to_string(counter), &mut vars);
        string_var("counter_unfocused", i32_to_string(counter - 1), &mut vars);
        string_var("counter_sup", to_superscript(counter), &mut vars);
        string_var("counter_unfocused_sup", to_superscript(counter - 1), &mut vars);
        string_var("delim", config_format.delim.clone(), &mut vars);
        assert(vars@ == base_vars(*client, counter as int, *config_format));
        let icon = match &client.matched_rule {
            IconStatus::Inactive(c) if client.is_active => {
                string_var("default_icon", c.icon(), &mut vars);
                proof {
                    reveal_strlit("{icon}");
                }
                let fmt = replace(
                    config_format.client_active.as_str(),
                    "{icon}",
                    "{default_icon}",
                );
                formatter(fmt.as_str(), &vars)
            },
            other => other.icon(),
        };
        string_var("icon", icon, &mut vars);
        string_var("client", config_format.client.clone(), &mut vars);
        string_var("client_dup", config_format.client_dup.clone(), &mut vars);
        string_var("client_fullscreen", config_format.client_fullscreen.clone(), &mut vars);
        if client.is_fullscreen && is_dedup {
            formatter(config_format.client_dup_fullscreen.as_str(), &vars)
        } else if is_dedup {
            formatter(config_format.client_dup.as_str(), &vars)
        } else if client.is_fullscreen {
            formatter(config_format.client_fullscreen.as_str(), &vars)
        } else {
            formatter(config_format.client.as_str(), &vars)
        }
    }

    /// The text of each workspace by its id (see [`workspace_text`]).
    pub fn generate_workspaces_string(
        &self,
        workspaces: Vec<AppWorkspace>,
        config: &ConfigFile,
    ) -> (res: HashMap<i32, String>)
        requires
            config.format.dedup ==> forall|i: int|
                0 <= i < workspaces@.len() ==> (#[trigger] workspaces@[i]).clients@.len()
                    <= i32::MAX,
        ensures
            texts_view(res@) == workspaces_texts(workspaces@, config.format),
    {
        let ghost input = workspaces@;
        let ghost format = config.format;
        let mut vars = FormatVars::new();
        string_var("delim", config.format.delim.clone(), &mut vars);
        let delim_text = formatter("{delim}", &vars);
        let mut res: HashMap<i32, String> = HashMap::new();
        assert(texts_view(res@) =~= workspaces_texts(input.take(0), format));
        for workspace in it: workspaces
            invariant
                it.seq() == input,
                format == config.format,
                delim_text@ == delimiter(format),
                format.dedup ==> forall|i: int|
                    0 <= i < input.len() ==> (#[trigger] input[i]).clients@.len() <= i32::MAX,
                texts_view(res@) == workspaces_texts(input.take(it.index() as int), format),
        {
            let ghost idx = it.index();
            assert(input[idx as int] == workspace);
            let ghost clients = workspace.clients@;
            let counted = generate_counted_clients(workspace.clients, config.format.dedup);
            let ghost counts = workspace_counts(clients, format.dedup);
            proof {
                if format.dedup {
                    lemma_counted_total(dedup_order(clients));
                }
                assert(counts_view(counted@) == counts);
            }
            let ghost texts = counts.map_values(
                |e: (AppClient, int)| client_text(e.0, e.1, format),
            );
            let mut joined_string = String::new();
            let mut k: usize = 0;
            assert(joined_string@ =~= joined(texts.take(0), delimiter(format)));
            while k < counted.len()
                invariant
                    k <= counted.len(),
                    counts_view(counted@) == counts,
                    texts == counts.map_values(
                        |e: (AppClient, int)| client_text(e.0, e.1, format),
                    ),
                    format == config.format,
                    delim_text@ == delimiter(format),
                    format.dedup ==> forall|i: int|
                        0 <= i < counts.len() ==> 1 <= #[trigger] counts[i].1,
                    !format.dedup ==> counts == clients.map_values(|c: AppClient| (c, 1int)),
                    joined_string@ == joined(texts.take(k as int), delimiter(format)),
                decreases counted.len() - k,
            {
                assert(counts[k as int] == (counted@[k as int].0, counted@[k as int].1 as int));
                let text = self.handle_new_client(&counted[k].0, counted[k].1, config);
                assert(text@ == texts[k as int]);
                assert(texts.take(k + 1).drop_last() =~= texts.take(k as int));
                if k > 0 {
                    push_all(&mut joined_string, delim_text.as_str());
                } else {
                    assert(joined_string@ =~= Seq::<char>::empty());
                }
                push_all(&mut joined_string, text.as_str());
                k = k + 1;
                assert(joined_string@ =~= joined(texts.take(k as int), delimiter(format)));
            }
            assert(texts.take(k as int) =~= texts);
            let ghost before = res@;
            res.insert(workspace.id, joined_string);
            proof {
                assert(input.take(idx + 1).drop_last() =~= input.take(idx as int));
                assert(texts_view(res@) =~= texts_view(before).insert(
                    workspace.id,
                    workspace_text(clients, format),
                ));
            }
        }
        assert(input.take(input.len() as int) =~= input);
        res
    }
}


// ---------------------------------------------------------------------------
// Laws of rendering
// ---------------------------------------------------------------------------

/// A format string without both an opening and a closing brace is left as
/// it is.
pub proof fn law_text_without_braces_unchanged(fmt: Seq<char>, vars: Map<Seq<char>, Seq<char>>)
    requires
        !has_braces(fmt),
    ensures
        formatted(fmt, vars) == fmt,
{
}

proof fn lemma_total_ones(clients: Seq<AppClient>)
    ensures
        total_count(clients.map_values(|c: AppClient| (c, 1int))) == clients.len(),
    decreases clients.len(),
{
    if clients.len() > 0 {
        let prev = clients.drop_last();
        lemma_total_ones(prev);
        assert(clients.map_values(|c: AppClient| (c, 1int)).drop_last() =~= prev.map_values(
            |c: AppClient| (c, 1int),
        ));
    }
}

/// Counting the clients of a workspace, with or without deduplication,
/// accounts for every client exactly once: the counts add up to the number
/// of clients, and each is at least one.
pub proof fn law_every_client_counted(clients: Seq<AppClient>, dedup: bool)
    ensures
        total_count(workspace_counts(clients, dedup)) == clients.len(),
        forall|i: int|
            0 <= i < workspace_counts(clients, dedup).len() ==> 1 <= (#[trigger] workspace_counts(
                clients,
                dedup,
            )[i]).1,
{
    if dedup {
        lemma_select_partition(clients);
        lemma_counted_total(dedup_order(clients));
    } else {
        lemma_total_ones(clients);
    }
}

/// Without deduplication each client has its own entry, in order, counted
/// once; with it no client is lost and the entries are no more than the
/// clients.
pub proof fn law_dedup_never_adds_entries(clients: Seq<AppClient>, dedup: bool)
    ensures
        workspace_counts(clients, dedup).len() <= clients.len(),
        !dedup ==> workspace_counts(clients, dedup).len() == clients.len(),
{
    law_every_client_counted(clients, dedup);
    lemma_entries_bounded_by_total(workspace_counts(clients, dedup));
}

proof fn lemma_entries_bounded_by_total(counted: Seq<(AppClient, int)>)
    requires
        forall|i: int| 0 <= i < counted.len() ==> 1 <= #[trigger] counted[i].1,
    ensures
        counted.len() <= total_count(counted),
    decreases counted.len(),
{
    if counted.len() > 0 {
        let prev = counted.drop_last();
        assert forall|i: int| 0 <= i < prev.len() implies 1 <= #[trigger] prev[i].1 by {
            assert(prev[i] == counted[i]);
        }
        lemma_entries_bounded_by_total(prev);
        assert(1 <= counted[counted.len() - 1].1);
    }
}


/// Whether `vars` gives every client placeholder its value for `client`
/// counted `counter` times: `{title}` the window's current title, `{class}`
/// its class, `{counter}` and `{counter_unfocused}` the counter and the
/// counter less one in decimal, `{counter_sup}` and `{counter_unfocused_sup}`
/// the same in superscript digits, and `{delim}` the delimiter.
pub open spec fn window_vars(
    vars: Map<Seq<char>, Seq<char>>,
    client: AppClient,
    counter: int,
    format: ConfigFormatRaw,
) -> bool {
    &&& vars.contains_key("title"@) && vars["title"@] == client.title@
    &&& vars.contains_key("class"@) && vars["class"@] == client.class@
    &&& vars.contains_key("counter"@) && vars["counter"@] == decimal(counter)
    &&& vars.contains_key("counter_unfocused"@) && vars["counter_unfocused"@] == decimal(counter - 1)
    &&& vars.contains_key("counter_sup"@) && vars["counter_sup"@] == superscript(counter)
    &&& vars.contains_key("counter_unfocused_sup"@) && vars["counter_unfocused_sup"@] == superscript(
        counter - 1,
    )
    &&& vars.contains_key("delim"@) && vars["delim"@] == format.delim@
}

/// The text of a window is its format filled in from the window: the
/// format is `client_dup_fullscreen` for a fullscreen window counted more
/// than once with deduplication on, `client_dup` for another such window,
/// `client_fullscreen` for another fullscreen window and `client`
/// otherwise; every client placeholder has its value ([`window_vars`]),
/// `{client}`, `{client_dup}` and `{client_fullscreen}` are those formats,
/// and `{icon}` is the icon of the window's rule, except for the focused
/// window whose rule came from a table for unfocused windows: there
/// `{icon}` is the `client_active` format, with `{icon}` read as
/// `{default_icon}`, filled in with the same placeholders and
/// `{default_icon}` the rule's icon.
pub proof fn law_client_text_fills_placeholders(
    client: AppClient,
    counter: int,
    format: ConfigFormatRaw,
)
    ensures
        exists|vars: Map<Seq<char>, Seq<char>>|
            {
                &&& #[trigger] window_vars(vars, client, counter, format)
                &&& vars.contains_key("client"@) && vars["client"@] == format.client@
                &&& vars.contains_key("client_dup"@) && vars["client_dup"@] == format.client_dup@
                &&& vars.contains_key("client_fullscreen"@) && vars["client_fullscreen"@]
                    == format.client_fullscreen@
                &&& vars.contains_key("icon"@)
                &&& !(client.is_active && client.matched_rule@ is Inactive) ==> vars["icon"@]
                    == client.matched_rule@.config().parts().1
                &&& (client.is_active && client.matched_rule@ is Inactive) ==> exists|
                    inner: Map<Seq<char>, Seq<char>>,
                |
                    {
                        &&& #[trigger] window_vars(inner, client, counter, format)
                        &&& inner.contains_key("default_icon"@)
                        &&& inner["default_icon"@] == client.matched_rule@.config().parts().1
                        &&& vars["icon"@] == formatted(
                            replace_all(format.client_active@, "{icon}"@, "{default_icon}"@),
                            inner,
                        )
                    }
                &&& client_text(client, counter, format) == formatted(
                    if client.is_fullscreen && format.dedup && counter > 1 {
                        format.client_dup_fullscreen@
                    } else if format.dedup && counter > 1 {
                        format.client_dup@
                    } else if client.is_fullscreen {
                        format.client_fullscreen@
                    } else {
                        format.client@
                    },
                    vars,
                )
            },
{
    reveal_strlit("title");
    reveal_strlit("class");
    reveal_strlit("counter");
    reveal_strlit("counter_unfocused");
    reveal_strlit("counter_sup");
    reveal_strlit("counter_unfocused_sup");
    reveal_strlit("delim");
    reveal_strlit("default_icon");
    reveal_strlit("icon");
    reveal_strlit("client");
    reveal_strlit("client_dup");
    reveal_strlit("client_fullscreen");
    assert("title"@[0] != "class"@[0]);
    assert("title"@.len() != "counter"@.len());
    assert("title"@.len() != "counter_unfocused"@.len());
    assert("title"@.len() != "counter_sup"@.len());
    assert("title"@.len() != "counter_unfocused_sup"@.len());
    assert("title"@[0] != "delim"@[0]);
    assert("title"@.len() != "default_icon"@.len());
    assert("title"@.len() != "icon"@.len());
    assert("title"@.len() != "client"@.len());
    assert("title"@.len() != "client_dup"@.len());
    assert("title"@.len() != "client_fullscreen"@.len());
    assert("class"@.len() != "counter"@.len());
    assert("class"@.len() != "counter_unfocused"@.len());
    assert("class"@.len() != "counter_sup"@.len());
    assert("class"@.len() != "counter_unfocused_sup"@.len());
    assert("class"@[0] != "delim"@[0]);
    assert("class"@.len() != "default_icon"@.len());
    assert("class"@.len() != "icon"@.len());
    assert("class"@.len() != "client"@.len());
    assert("class"@.len() != "client_dup"@.len());
    assert("class"@.len() != "client_fullscreen"@.len());
    assert("counter"@.len() != "counter_unfocused"@.len());
    assert("counter"@.len() != "counter_sup"@.len());
    assert("counter"@.len() != "counter_unfocused_sup"@.len());
    assert("counter"@.len() != "delim"@.len());
    assert("counter"@.len() != "default_icon"@.len());
    assert("counter"@.len() != "icon"@.len());
    assert("counter"@.len() != "client"@.len());
    assert("counter"@.len() != "client_dup"@.len());
    assert("counter"@.len() != "client_fullscreen"@.len());
    assert("counter_unfocused"@.len() != "counter_sup"@.len());
    assert("counter_unfocused"@.len() != "counter_unfocused_sup"@.len());
    assert("counter_unfocused"@.len() != "delim"@.len());
    assert("counter_unfocused"@.len() != "default_icon"@.len());
    assert("counter_unfocused"@.len() != "icon"@.len());
    assert("counter_unfocused"@.len() != "client"@.len());
    assert("counter_unfocused"@.len() != "client_dup"@.len());
    assert("counter_unfocused"@[1] != "client_fullscreen"@[1]);
    assert("counter_sup"@.len() != "counter_unfocused_sup"@.len());
    assert("counter_sup"@.len() != "delim"@.len());
    assert("counter_sup"@.len() != "default_icon"@.len());
    assert("counter_sup"@.len() != "icon"@.len());
    assert("counter_sup"@.len() != "client"@.len());
    assert("counter_sup"@.len() != "client_dup"@.len());
    assert("counter_sup"@.len() != "client_fullscreen"@.len());
    assert("counter_unfocused_sup"@.len() != "delim"@.len());
    assert("counter_unfocused_sup"@.len() != "default_icon"@.len());
    assert("counter_unfocused_sup"@.len() != "icon"@.len());
    assert("counter_unfocused_sup"@.len() != "client"@.len());
    assert("counter_unfocused_sup"@.len() != "client_dup"@.len());
    assert("counter_unfocused_sup"@.len() != "client_fullscreen"@.len());
    assert("delim"@.len() != "default_icon"@.len());
    assert("delim"@.len() != "icon"@.len());
    assert("delim"@.len() != "client"@.len());
    assert("delim"@.len() != "client_dup"@.len());
    assert("delim"@.len() != "client_fullscreen"@.len());
    assert("default_icon"@.len() != "icon"@.len());
    assert("default_icon"@.len() != "client"@.len());
    assert("default_icon"@.len() != "client_dup"@.len());
    assert("default_icon"@.len() != "client_fullscreen"@.len());
    assert("icon"@.len() != "client"@.len());
    assert("icon"@.len() != "client_dup"@.len());
    assert("icon"@.len() != "client_fullscreen"@.len());
    assert("client"@.len() != "client_dup"@.len());
    assert("client"@.len() != "client_fullscreen"@.len());
    assert("client_dup"@.len() != "client_fullscreen"@.len());
    let base = base_vars(client, counter, format);
    assert(window_vars(base, client, counter, format));
    let (v, icon) = icon_vars(client, counter, format);
    let vars = v.insert("icon"@, icon).insert("client"@, format.client@).insert(
        "client_dup"@,
        format.client_dup@,
    ).insert("client_fullscreen"@, format.client_fullscreen@);
    if client.is_active && client.matched_rule@ is Inactive {
        let inner = base.insert("default_icon"@, client.matched_rule@.config().parts().1);
        assert(window_vars(inner, client, counter, format));
        assert(v == inner);
    } else {
        assert(v == base);
    }
    assert(window_vars(vars, client, counter, format));
    assert(vars["icon"@] == icon);
}


proof fn lemma_select_flags(s: Seq<AppClient>, active: bool, fullscreen: bool)
    ensures
        forall|k: int|
            0 <= k < select_clients(s, active, fullscreen).len() ==> {
                let c = #[trigger] select_clients(s, active, fullscreen)[k];
                c.is_active == active && c.is_fullscreen == fullscreen && s.contains(c)
            },
    decreases s.len(),
{
    if s.len() > 0 {
        let prev = s.drop_last();
        lemma_select_flags(prev, active, fullscreen);
        let r = select_clients(prev, active, fullscreen);
        let t = select_clients(s, active, fullscreen);
        assert forall|k: int| 0 <= k < t.len() implies {
            let c = #[trigger] t[k];
            c.is_active == active && c.is_fullscreen == fullscreen && s.contains(c)
        } by {
            if k < r.len() {
                assert(t[k] == r[k]);
                let j = choose|j: int| 0 <= j < prev.len() && prev[j] == r[k];
                assert(s[j] == prev[j]);
            } else {
                assert(t[k] == s[s.len() - 1]);
            }
        }
    }
}

/// The place of a window in the counting order: focused fullscreen windows
/// first, then the other focused ones, then unfocused fullscreen ones, then
/// the rest.
pub open spec fn counting_rank(c: AppClient) -> int {
    if c.is_active && c.is_fullscreen {
        0
    } else if c.is_active {
        1
    } else if c.is_fullscreen {
        2
    } else {
        3
    }
}

/// With deduplication the windows are counted in this order: every window
/// once (the order holds as many windows as there are, each one of them),
/// the focused ones before the others, and among windows of the same focus
/// the fullscreen ones first.
pub proof fn law_dedup_counting_order(s: Seq<AppClient>)
    ensures
        dedup_order(s).len() == s.len(),
        forall|k: int| 0 <= k < dedup_order(s).len() ==> s.contains(#[trigger] dedup_order(s)[k]),
        forall|i: int, j: int|
            0 <= i < j < dedup_order(s).len() ==> {
                let a = #[trigger] dedup_order(s)[i];
                let b = #[trigger] dedup_order(s)[j];
                &&& a.is_active || !b.is_active
                &&& a.is_active == b.is_active ==> a.is_fullscreen || !b.is_fullscreen
            },
{
    lemma_select_partition(s);
    let a = select_clients(s, true, true);
    let b = select_clients(s, true, false);
    let c = select_clients(s, false, true);
    let d = select_clients(s, false, false);
    lemma_select_flags(s, true, true);
    lemma_select_flags(s, true, false);
    lemma_select_flags(s, false, true);
    lemma_select_flags(s, false, false);
    let o = dedup_order(s);
    let la = a.len() as int;
    let lb = la + b.len();
    let lc = lb + c.len();
    assert forall|k: int| 0 <= k < o.len() implies s.contains(#[trigger] o[k]) && counting_rank(o[k])
        == (if k < la {
        0int
    } else if k < lb {
        1int
    } else if k < lc {
        2int
    } else {
        3int
    }) by {
        if k < la {
            assert(o[k] == a[k]);
        } else if k < lb {
            assert(o[k] == b[k - la]);
        } else if k < lc {
            assert(o[k] == c[k - lb]);
        } else {
            assert(o[k] == d[k - lc]);
        }
    }
    assert forall|i: int, j: int| 0 <= i < j < o.len() implies {
        let x = #[trigger] o[i];
        let y = #[trigger] o[j];
        &&& x.is_active || !y.is_active
        &&& x.is_active == y.is_active ==> x.is_fullscreen || !y.is_fullscreen
    } by {
        assert(counting_rank(o[i]) <= counting_rank(o[j]));
    }
}

} // verus!
