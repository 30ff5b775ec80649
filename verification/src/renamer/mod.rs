//! The renamer: turns the windows of each workspace into the workspace's name.
pub mod formatter;
pub mod icon;

use crate::config::{Config, ConfigFile, ConfigFormatRaw};
use crate::params::Args;
use crate::rule::regex_matches;
use crate::text::{
    decimal, decimal_pad2, i32_to_string, i32_to_string_pad2, parse_i32, parsed_i32, to_owned_string,
    trim, trimmed,
};
use formatter::{formatted, texts_view, workspace_text, workspaces_texts, AppWorkspace, FormatVars};
use icon::{chosen_icon, IconStatus};
use std::collections::{HashMap, HashSet};
use vstd::prelude::*;

verus! {

broadcast use {vstd::string::group_string_axioms, vstd::std_specs::hash::group_hash_axioms};

/// A window as the compositor reports it.
#[derive(Clone, Debug)]
pub struct ClientInfo {
    pub address: String,
    pub workspace_id: i32,
    pub initial_class: String,
    pub class: String,
    pub initial_title: String,
    pub title: String,
    pub fullscreen: bool,
}

/// A window of a workspace, with the rule that gave it its icon.
#[derive(Debug)]
pub struct AppClient {
    pub initial_class: String,
    pub class: String,
    pub initial_title: String,
    pub title: String,
    pub is_active: bool,
    pub is_fullscreen: bool,
    pub is_dedup_inactive_fullscreen: bool,
    pub matched_rule: IconStatus,
}

/// Whether `b` counts as a duplicate of `a` when icons are deduplicated: the
/// same rule, the same focus, and the same fullscreen state unless `a` lets
/// fullscreen windows merge with the others.
pub open spec fn same_client(a: AppClient, b: AppClient) -> bool {
    &&& a.matched_rule@ == b.matched_rule@
    &&& a.is_active == b.is_active
    &&& (a.is_dedup_inactive_fullscreen || a.is_fullscreen == b.is_fullscreen)
}

impl PartialEq for AppClient {
    fn eq(&self, other: &Self) -> (res: bool) {
        self.matched_rule == other.matched_rule && self.is_active == other.is_active && (
        self.is_dedup_inactive_fullscreen || self.is_fullscreen == other.is_fullscreen)
    }
}

impl vstd::std_specs::cmp::PartialEqSpecImpl for AppClient {
    open spec fn obeys_eq_spec() -> bool {
        true
    }

    open spec fn eq_spec(&self, other: &Self) -> bool {
        same_client(*self, *other)
    }
}

impl Clone for AppClient {
    fn clone(&self) -> (res: Self)
        ensures
            res.initial_class == self.initial_class,
            res.class == self.class,
            res.initial_title == self.initial_title,
            res.title == self.title,
            res.is_active == self.is_active,
            res.is_fullscreen == self.is_fullscreen,
            res.is_dedup_inactive_fullscreen == self.is_dedup_inactive_fullscreen,
            res.matched_rule@ == self.matched_rule@,
    {
        AppClient {
            initial_class: self.initial_class.clone(),
            class: self.class.clone(),
            initial_title: self.initial_title.clone(),
            title: self.title.clone(),
            is_active: self.is_active,
            is_fullscreen: self.is_fullscreen,
            is_dedup_inactive_fullscreen: self.is_dedup_inactive_fullscreen,
            matched_rule: self.matched_rule.clone(),
        }
    }
}

impl AppClient {
    /// The workspace entry of the window `client`.
    pub fn new(
        client: ClientInfo,
        is_active: bool,
        is_dedup_inactive_fullscreen: bool,
        matched_rule: IconStatus,
    ) -> (res: AppClient)
        ensures
            res.initial_class == client.initial_class,
            res.class == client.class,
            res.initial_title == client.initial_title,
            res.title == client.title,
            res.is_active == is_active,
            res.is_fullscreen == client.fullscreen,
            res.is_dedup_inactive_fullscreen == is_dedup_inactive_fullscreen,
            res.matched_rule == matched_rule,
    {
        AppClient {
            initial_class: client.initial_class,
            class: client.class,
            initial_title: client.initial_title,
            title: client.title,
            is_active,
            is_fullscreen: client.fullscreen,
            is_dedup_inactive_fullscreen,
            matched_rule,
        }
    }
}

/// The renamer's state: the workspaces it has seen, the configuration and the
/// command-line arguments.
pub struct Renamer {
    known_workspaces: HashSet<i32>,
    cfg: Config,
    args: Args,
}

/// The ids of `ids` without duplicates and as a set: what a walk over a set
/// of workspace ids gives.
pub open spec fn lists_once(ids: Seq<i32>, set: Set<i32>) -> bool {
    ids.no_duplicates() && ids.to_set() == set
}

/// The ids of the workspaces the renamer knows, each once, in the order in
/// which the set hands them out.
fn known_ids(known: &HashSet<i32>) -> (res: Vec<i32>)
    ensures
        lists_once(res@, known@),
{
    let mut res: Vec<i32> = Vec::new();
    for id in it: known.iter()
        invariant
            res@ == it.seq().unref().take(it.index() as int),
            it.seq().unref().no_duplicates(),
            it.seq().unref().to_set() == known@,
            it.index() == it.seq().len() ==> res@ =~= it.seq().unref(),
    {
        assert(it.seq().unref().take(it.index() + 1) =~= it.seq().unref().take(
            it.index() as int,
        ).push(*id));
        res.push(*id);
        assert(it.seq().unref().take(it.seq().len() as int) =~= it.seq().unref());
    }
    res
}

impl Renamer {
    /// The workspaces the renamer has seen.
    pub closed spec fn known(self) -> Set<i32> {
        self.known_workspaces@
    }

    /// The configuration the renamer holds.
    pub closed spec fn cfg_spec(self) -> Config {
        self.cfg
    }

    /// The command-line arguments the renamer holds.
    pub closed spec fn args_spec(self) -> Args {
        self.args
    }

    /// Replaces the configuration with a newly read one; the path it was read
    /// from and the known workspaces stay.
    pub fn update_config(&mut self, config: ConfigFile)
        ensures
            final(self).cfg_spec().config == config,
            final(self).cfg_spec().cfg_path == old(self).cfg_spec().cfg_path,
            final(self).known() == old(self).known(),
            final(self).args_spec() == old(self).args_spec(),
    {
        self.cfg.config = config;
    }

    /// The workspaces the renamer has seen, each once, in no particular
    /// order.
    pub fn known_workspaces(&self) -> (res: Vec<i32>)
        ensures
            lists_once(res@, self.known()),
    {
        known_ids(&self.known_workspaces)
    }

    /// The configuration the renamer holds.
    pub fn config(&self) -> (res: &Config)
        ensures
            *res == self.cfg_spec(),
    {
        &self.cfg
    }

    /// The command-line arguments the renamer holds.
    pub fn args(&self) -> (res: &Args)
        ensures
            *res == self.args_spec(),
    {
        &self.args
    }

    /// A renamer that knows no workspace yet.
    pub fn new(cfg: Config, args: Args) -> (res: Renamer)
        ensures
            res.known() == Set::<i32>::empty(),
            res.cfg_spec() == cfg,
            res.args_spec() == args,
    {
        Renamer { known_workspaces: HashSet::new(), cfg, args }
    }
}

// ---------------------------------------------------------------------------
// Workspaces from clients
// ---------------------------------------------------------------------------

/// The ids of the workspaces that hold a window of `clients`.
pub open spec fn client_workspaces(clients: Seq<ClientInfo>) -> Set<i32> {
    Set::new(|id: i32| client_on_workspace(clients, id))
}

/// The workspaces known after seeing `clients`: those of `known` and the
/// workspace of every window.
pub open spec fn seen_workspaces(known: Set<i32>, clients: Seq<ClientInfo>) -> Set<i32> {
    known.union(client_workspaces(clients))
}

proof fn lemma_client_workspaces_push(clients: Seq<ClientInfo>, c: ClientInfo)
    ensures
        client_workspaces(clients.push(c)) == client_workspaces(clients).insert(c.workspace_id),
{
    let p = clients.push(c);
    assert forall|x: i32| #[trigger] client_workspaces(p).contains(x) <==> client_workspaces(
        clients,
    ).insert(c.workspace_id).contains(x) by {
        if client_on_workspace(clients, x) {
            let k = choose|k: int| 0 <= k < clients.len() && (#[trigger] clients[k]).workspace_id == x;
            assert(p[k] == clients[k]);
        }
        if x == c.workspace_id {
            assert(p[clients.len() as int] == c);
        }
        if client_on_workspace(p, x) {
            let k = choose|k: int| 0 <= k < p.len() && (#[trigger] p[k]).workspace_id == x;
            if k < clients.len() {
                assert(clients[k] == p[k]);
            }
        }
    }
    assert(client_workspaces(p) =~= client_workspaces(clients).insert(c.workspace_id));
}

/// The clients on the workspace `id`, in order.
pub open spec fn clients_on(clients: Seq<ClientInfo>, id: i32) -> Seq<ClientInfo>
    decreases clients.len(),
{
    if clients.len() == 0 {
        seq![]
    } else {
        let rest = clients_on(clients.drop_last(), id);
        if clients.last().workspace_id == id {
            rest.push(clients.last())
        } else {
            rest
        }
    }
}

/// Whether `a` is the workspace entry of the window `c`: its names and
/// titles, whether it is the focused window (its address is `active_client`),
/// its fullscreen state, the deduplication setting, and the rule
/// [`chosen_icon`] gives it.
pub open spec fn app_client_of(
    a: AppClient,
    c: ClientInfo,
    active_client: Seq<char>,
    config: ConfigFile,
) -> bool {
    let is_active = c.address@ == active_client;
    &&& a.initial_class@ == c.initial_class@
    &&& a.class@ == c.class@
    &&& a.initial_title@ == c.initial_title@
    &&& a.title@ == c.title@
    &&& a.is_active == is_active
    &&& a.is_fullscreen == c.fullscreen
    &&& a.is_dedup_inactive_fullscreen == config.format.dedup_inactive_fullscreen
    &&& a.matched_rule@ == chosen_icon(
        config,
        c.initial_class@,
        c.class@,
        c.initial_title@,
        c.title@,
        is_active,
    )
}

/// Whether `workspaces` holds one entry for each id of `ids`, in that order,
/// with the entries of the clients on that workspace.
pub open spec fn workspaces_of(
    workspaces: Seq<AppWorkspace>,
    ids: Seq<i32>,
    clients: Seq<ClientInfo>,
    active_client: Seq<char>,
    config: ConfigFile,
) -> bool {
    &&& workspaces.len() == ids.len()
    &&& forall|i: int|
        0 <= i < ids.len() ==> {
            let w = #[trigger] workspaces[i];
            let on = clients_on(clients, ids[i]);
            &&& w.id == ids[i]
            &&& w.clients@.len() == on.len()
            &&& forall|j: int|
                0 <= j < on.len() ==> app_client_of(
                    #[trigger] w.clients@[j],
                    on[j],
                    active_client,
                    config,
                )
        }
}

proof fn lemma_push_contains(s: Seq<i32>, x: i32, y: i32)
    ensures
        s.push(x).contains(y) <==> (s.contains(y) || x == y),
{
    if s.contains(y) {
        let k = choose|k: int| 0 <= k < s.len() && s[k] == y;
        assert(s.push(x)[k] == y);
    }
    if x == y {
        assert(s.push(x)[s.len() as int] == y);
    }
    if s.push(x).contains(y) {
        let k = choose|k: int| 0 <= k < s.push(x).len() && s.push(x)[k] == y;
        if k < s.len() {
            assert(s[k] == y);
        }
    }
}

/// Seeing windows only adds workspaces: the known ones stay known, the
/// workspace of every window becomes known, and every known workspace was
/// known before or holds a window.
pub proof fn law_seen_workspaces(known: Set<i32>, clients: Seq<ClientInfo>)
    ensures
        known.subset_of(seen_workspaces(known, clients)),
        forall|i: int|
            0 <= i < clients.len() ==> seen_workspaces(known, clients).contains(
                (#[trigger] clients[i]).workspace_id,
            ),
        forall|id: i32|
            #[trigger] seen_workspaces(known, clients).contains(id) ==> known.contains(id)
                || client_on_workspace(clients, id),
{
    assert forall|i: int| 0 <= i < clients.len() implies seen_workspaces(known, clients).contains(
        (#[trigger] clients[i]).workspace_id,
    ) by {
        assert(client_on_workspace(clients, clients[i].workspace_id));
    }
}

/// Whether some client of `clients` is on the workspace `id`.
pub open spec fn client_on_workspace(clients: Seq<ClientInfo>, id: i32) -> bool {
    exists|i: int| 0 <= i < clients.len() && (#[trigger] clients[i]).workspace_id == id
}

fn app_client_from(
    renamer: &Renamer,
    c: &ClientInfo,
    active_client: &str,
    config: &ConfigFile,
) -> (res: AppClient)
    ensures
        app_client_of(res, *c, active_client@, *config),
{
    let is_active = c.address == to_owned_string(active_client);
    let matched_rule = renamer.parse_icon(
        c.initial_class.clone(),
        c.class.clone(),
        c.initial_title.clone(),
        c.title.clone(),
        is_active,
        config,
    );
    AppClient {
        initial_class: c.initial_class.clone(),
        class: c.class.clone(),
        initial_title: c.initial_title.clone(),
        title: c.title.clone(),
        is_active,
        is_fullscreen: c.fullscreen,
        is_dedup_inactive_fullscreen: config.format.dedup_inactive_fullscreen,
        matched_rule,
    }
}

impl Renamer {
    fn collect_workspaces(
        &self,
        clients: &Vec<ClientInfo>,
        active_client: &str,
        config: &ConfigFile,
    ) -> (res: (Vec<AppWorkspace>, Vec<i32>))
        ensures
            lists_once(res.1@, seen_workspaces(self.known(), clients@)),
            workspaces_of(res.0@, res.1@, clients@, active_client@, *config),
    {
        let mut ids = known_ids(&self.known_workspaces);
        assert(clients@.take(0) =~= Seq::<ClientInfo>::empty());
        assert(seen_workspaces(self.known(), clients@.take(0)) =~= self.known());
        let mut i: usize = 0;
        while i < clients.len()
            invariant
                i <= clients@.len(),
                lists_once(ids@, seen_workspaces(self.known(), clients@.take(i as int))),
            decreases clients@.len() - i,
        {
            let id = clients[i].workspace_id;
            let mut present = false;
            let mut m: usize = 0;
            while m < ids.len()
                invariant
                    m <= ids@.len(),
                    present == ids@.take(m as int).contains(id),
                decreases ids@.len() - m,
            {
                proof {
                    assert(ids@.take(m + 1) =~= ids@.take(m as int).push(ids@[m as int]));
                    lemma_push_contains(ids@.take(m as int), ids@[m as int], id);
                }
                if ids[m] == id {
                    present = true;
                }
                m = m + 1;
            }
            assert(ids@.take(m as int) =~= ids@);
            proof {
                assert(clients@.take(i + 1) =~= clients@.take(i as int).push(clients@[i as int]));
                lemma_client_workspaces_push(clients@.take(i as int), clients@[i as int]);
                assert(seen_workspaces(self.known(), clients@.take(i + 1)) =~= seen_workspaces(
                    self.known(),
                    clients@.take(i as int),
                ).insert(id));
            }
            let ghost before = ids@;
            if !present {
                ids.push(id);
                proof {
                    assert forall|x: i32| #[trigger] ids@.contains(x) <==> before.to_set().insert(
                        id,
                    ).contains(x) by {
                        lemma_push_contains(before, id, x);
                    }
                    assert(ids@.to_set() =~= before.to_set().insert(id));
                    assert forall|a: int, b: int| 0 <= a < b < ids@.len() implies ids@[a]
                        != ids@[b] by {
                        if b == before.len() {
                            assert(ids@[a] == before[a]);
                        }
                    }
                }
            } else {
                assert(before.to_set().insert(id) =~= before.to_set());
            }
            i = i + 1;
        }
        assert(clients@.take(i as int) =~= clients@);
        let mut workspaces: Vec<AppWorkspace> = Vec::new();
        let mut w: usize = 0;
        while w < ids.len()
            invariant
                w <= ids@.len(),
                workspaces_of(
                    workspaces@,
                    ids@.take(w as int),
                    clients@,
                    active_client@,
                    *config,
                ),
            decreases ids@.len() - w,
        {
            let id = ids[w];
            let mut on: Vec<AppClient> = Vec::new();
            let mut j: usize = 0;
            while j < clients.len()
                invariant
                    j <= clients@.len(),
                    on@.len() == clients_on(clients@.take(j as int), id).len(),
                    forall|q: int|
                        0 <= q < on@.len() ==> app_client_of(
                            #[trigger] on@[q],
                            clients_on(clients@.take(j as int), id)[q],
                            active_client@,
                            *config,
                        ),
                decreases clients@.len() - j,
            {
                assert(clients@.take(j + 1).drop_last() =~= clients@.take(j as int));
                if clients[j].workspace_id == id {
                    let entry = app_client_from(self, &clients[j], active_client, config);
                    on.push(entry);
                }
                j = j + 1;
            }
            assert(clients@.take(j as int) =~= clients@);
            let ghost before = workspaces@;
            workspaces.push(AppWorkspace { id, clients: on });
            w = w + 1;
            proof {
                let idsw = ids@.take(w as int);
                assert forall|q: int| 0 <= q < idsw.len() implies {
                    let ws = #[trigger] workspaces@[q];
                    let on = clients_on(clients@, idsw[q]);
                    &&& ws.id == idsw[q]
                    &&& ws.clients@.len() == on.len()
                    &&& forall|j: int|
                        0 <= j < on.len() ==> app_client_of(
                            #[trigger] ws.clients@[j],
                            on[j],
                            active_client@,
                            *config,
                        )
                } by {
                    if q < w - 1 {
                        assert(workspaces@[q] == before[q]);
                        assert(idsw[q] == ids@.take(w - 1)[q]);
                    }
                }
            }
        }
        assert(ids@.take(w as int) =~= ids@);
        (workspaces, ids)
    }

    /// The workspaces with their clients: one entry for each workspace seen so
    /// far or holding a client ([`seen_workspaces`]), each once and in no
    /// particular order, each with the entries of its clients
    /// ([`app_client_of`]); the workspaces of the clients become known.
    pub fn get_workspaces_from_clients(
        &mut self,
        clients: Vec<ClientInfo>,
        active_client: String,
        config: &ConfigFile,
    ) -> (res: Vec<AppWorkspace>)
        ensures
            final(self).known() == seen_workspaces(old(self).known(), clients@),
            final(self).cfg_spec() == old(self).cfg_spec(),
            final(self).args_spec() == old(self).args_spec(),
            lists_once(workspace_ids(res@), final(self).known()),
            workspaces_of(res@, workspace_ids(res@), clients@, active_client@, *config),
    {
        let (workspaces, ids) = self.collect_workspaces(&clients, active_client.as_str(), config);
        self.known_workspaces = set_of(&ids);
        assert(workspace_ids(workspaces@) =~= ids@);
        workspaces
    }
}

/// The ids of the workspaces, in order.
pub open spec fn workspace_ids(workspaces: Seq<AppWorkspace>) -> Seq<i32> {
    workspaces.map_values(|w: AppWorkspace| w.id)
}

/// The set of the ids of `ids`.
fn set_of(ids: &Vec<i32>) -> (res: HashSet<i32>)
    ensures
        res@ == ids@.to_set(),
{
    let mut res: HashSet<i32> = HashSet::new();
    let mut k: usize = 0;
    while k < ids.len()
        invariant
            k <= ids@.len(),
            res@ == ids@.take(k as int).to_set(),
        decreases ids@.len() - k,
    {
        let ghost before = res@;
        res.insert(ids[k]);
        proof {
            let t = ids@.take(k + 1);
            assert(t =~= ids@.take(k as int).push(ids@[k as int]));
            assert forall|x: i32| #[trigger] t.contains(x) <==> before.insert(ids@[k as int]).contains(
                x,
            ) by {
                lemma_push_contains(ids@.take(k as int), ids@[k as int], x);
            }
            assert(res@ =~= t.to_set());
        }
        k = k + 1;
    }
    assert(ids@.take(k as int) =~= ids@);
    res
}


// ---------------------------------------------------------------------------
// Filtering clients
// ---------------------------------------------------------------------------

/// Whether an entry of the exclude table matches the window: its class
/// pattern the class and its title pattern the title.
pub open spec fn excluded(exclude: Seq<(crate::rule::Rule, crate::rule::Rule)>, c: ClientInfo) -> bool {
    exists|i: int|
        0 <= i < exclude.len() && regex_matches((#[trigger] exclude[i]).0@, c.class@)
            && regex_matches(exclude[i].1@, c.title@)
}

/// Whether a window is renamed at all: it has a class and is not excluded.
pub open spec fn kept_client(config: ConfigFile, c: ClientInfo) -> bool {
    c.class@.len() > 0 && !excluded(config.exclude@, c)
}

/// The windows that are kept, in order.
pub open spec fn filtered_clients(clients: Seq<ClientInfo>, config: ConfigFile) -> Seq<ClientInfo>
    decreases clients.len(),
{
    if clients.len() == 0 {
        seq![]
    } else {
        let rest = filtered_clients(clients.drop_last(), config);
        if kept_client(config, clients.last()) {
            rest.push(clients.last())
        } else {
            rest
        }
    }
}

fn is_excluded(exclude: &Vec<(crate::rule::Rule, crate::rule::Rule)>, c: &ClientInfo) -> (res: bool)
    ensures
        res == excluded(exclude@, *c),
{
    let mut i: usize = 0;
    while i < exclude.len()
        invariant
            i <= exclude@.len(),
            forall|k: int|
                0 <= k < i ==> !(regex_matches((#[trigger] exclude@[k]).0@, c.class@)
                    && regex_matches(exclude@[k].1@, c.title@)),
        decreases exclude@.len() - i,
    {
        if exclude[i].0.is_match(c.class.as_str()) && exclude[i].1.is_match(c.title.as_str()) {
            assert(regex_matches(exclude@[i as int].0@, c.class@));
            return true;
        }
        i = i + 1;
    }
    false
}

/// The windows that are kept: those with a class that no entry of the
/// exclude table matches, in order.
pub fn filter_clients(clients: Vec<ClientInfo>, config: &ConfigFile) -> (res: Vec<ClientInfo>)
    ensures
        res@ == filtered_clients(clients@, *config),
{
    let ghost input = clients@;
    let mut res: Vec<ClientInfo> = Vec::new();
    for c in it: clients
        invariant
            it.seq() == input,
            res@ == filtered_clients(input.take(it.index() as int), *config),
    {
        assert(input.take(it.index() + 1).drop_last() =~= input.take(it.index() as int));
        if !c.class.as_str().is_empty() && !is_excluded(&config.exclude, &c) {
            res.push(c);
        }
    }
    assert(input.take(input.len() as int) =~= input);
    res
}

proof fn lemma_filtered_len(clients: Seq<ClientInfo>, config: ConfigFile)
    ensures
        filtered_clients(clients, config).len() <= clients.len(),
    decreases clients.len(),
{
    if clients.len() > 0 {
        lemma_filtered_len(clients.drop_last(), config);
    }
}

proof fn lemma_clients_on_len(clients: Seq<ClientInfo>, id: i32)
    ensures
        clients_on(clients, id).len() <= clients.len(),
    decreases clients.len(),
{
    if clients.len() > 0 {
        lemma_clients_on_len(clients.drop_last(), id);
    }
}

// ---------------------------------------------------------------------------
// Workspace names
// ---------------------------------------------------------------------------

/// The variables a workspace format can name: the id, the id on two digits,
/// the delimiter and the text of the clients.
pub open spec fn workspace_vars(id: i32, clients: Seq<char>, format: ConfigFormatRaw) -> Map<
    Seq<char>,
    Seq<char>,
> {
    Map::empty().insert("id"@, decimal(id as int)).insert("id_long"@, decimal_pad2(id as int)).insert(
        "delim"@,
        format.delim@,
    ).insert("clients"@, clients)
}

/// The name of the workspace `id` whose clients read `clients`: the
/// workspace format (the empty-workspace format when there is no client
/// text) filled in, without surrounding white space.
pub open spec fn workspace_name_text(id: i32, clients: Seq<char>, format: ConfigFormatRaw) -> Seq<
    char,
> {
    let vars = workspace_vars(id, clients, format);
    trimmed(
        if clients.len() > 0 {
            formatted(format.workspace@, vars)
        } else {
            formatted(format.workspace_empty@, vars)
        },
    )
}

/// The name of the workspace `id` whose clients read `clients` (see
/// [`workspace_name_text`]).
pub fn workspace_name(id: i32, clients: &str, config_format: &ConfigFormatRaw) -> (res: String)
    ensures
        res@ == workspace_name_text(id, clients@, *config_format),
{
    let mut vars = FormatVars::new();
    vars.insert(to_owned_string("id"), i32_to_string(id));
    vars.insert(to_owned_string("id_long"), i32_to_string_pad2(id));
    vars.insert(to_owned_string("delim"), config_format.delim.clone());
    vars.insert(to_owned_string("clients"), to_owned_string(clients));
    let workspace = if !clients.is_empty() {
        formatter::formatter(config_format.workspace.as_str(), &vars)
    } else {
        formatter::formatter(config_format.workspace_empty.as_str(), &vars)
    };
    trim(workspace.as_str())
}

/// The renames with their names by view.
pub open spec fn renames_view(renames: Seq<(i32, String)>) -> Seq<(i32, Seq<char>)> {
    renames.map_values(|r: (i32, String)| (r.0, r.1@))
}

/// The rename of the active workspace when it holds no window.
pub open spec fn empty_workspace_rename(active_workspace: Option<(i32, u16)>, format: ConfigFormatRaw) -> Seq<
    (i32, Seq<char>),
> {
    match active_workspace {
        Some((id, windows)) => if windows == 0 {
            seq![(id, workspace_name_text(id, ""@, format))]
        } else {
            seq![]
        },
        None => seq![],
    }
}

/// The rename of each workspace, in order, after the text of its clients.
pub open spec fn workspace_renames(workspaces: Seq<AppWorkspace>, format: ConfigFormatRaw) -> Seq<
    (i32, Seq<char>),
> {
    workspaces.map_values(
        |w: AppWorkspace| (w.id, workspace_name_text(w.id, workspace_text(w.clients@, format), format)),
    )
}

proof fn lemma_workspaces_texts(workspaces: Seq<AppWorkspace>, format: ConfigFormatRaw, i: int)
    requires
        0 <= i < workspaces.len(),
        forall|a: int, b: int|
            0 <= a < b < workspaces.len() ==> (#[trigger] workspaces[a]).id != (
            #[trigger] workspaces[b]).id,
    ensures
        workspaces_texts(workspaces, format).contains_key(workspaces[i].id),
        workspaces_texts(workspaces, format)[workspaces[i].id] == workspace_text(
            workspaces[i].clients@,
            format,
        ),
    decreases workspaces.len(),
{
    let prev = workspaces.drop_last();
    if i < workspaces.len() - 1 {
        assert(prev[i] == workspaces[i]);
        assert forall|a: int, b: int| 0 <= a < b < prev.len() implies (#[trigger] prev[a]).id != (
        #[trigger] prev[b]).id by {
            assert(prev[a] == workspaces[a]);
            assert(prev[b] == workspaces[b]);
        }
        lemma_workspaces_texts(prev, format, i);
        assert(workspaces[i].id != workspaces[workspaces.len() - 1].id);
    }
}

/// Why a workspace could not be forgotten: its name is not a number.
#[derive(Debug, Clone, Copy, PartialEq, Eq)]
pub struct InvalidWorkspaceId;

/// A workspace as the compositor names it when it is destroyed.
#[derive(Debug, Clone)]
pub enum WorkspaceKind {
    /// A regular workspace, named by its id.
    Regular(String),
    /// A special (scratchpad) workspace.
    Special(Option<String>),
}

impl Renamer {
    /// The renames to make on a change of windows. When the active workspace
    /// (its id and number of windows) holds no window, it is renamed first
    /// from the empty-workspace format. Then the windows are filtered
    /// ([`filtered_clients`]), their workspaces become known, and every
    /// known workspace is renamed after the text of its clients, in the
    /// order they are known.
    pub fn rename_workspace(
        &mut self,
        clients: Vec<ClientInfo>,
        active_client: String,
        active_workspace: Option<(i32, u16)>,
    ) -> (res: Vec<(i32, String)>)
        requires
            old(self).cfg_spec().config.format.dedup ==> clients@.len() <= i32::MAX,
        ensures
            final(self).known() == seen_workspaces(
                old(self).known(),
                filtered_clients(clients@, old(self).cfg_spec().config),
            ),
            final(self).cfg_spec() == old(self).cfg_spec(),
            final(self).args_spec() == old(self).args_spec(),
            exists|workspaces: Seq<AppWorkspace>|
                {
                    &&& lists_once(workspace_ids(workspaces), final(self).known())
                    &&& workspaces_of(
                        workspaces,
                        workspace_ids(workspaces),
                        filtered_clients(clients@, old(self).cfg_spec().config),
                        active_client@,
                        old(self).cfg_spec().config,
                    )
                    &&& renames_view(res@) == empty_workspace_rename(
                        active_workspace,
                        old(self).cfg_spec().config.format,
                    ) + workspace_renames(workspaces, old(self).cfg_spec().config.format)
                },
    {
        let ghost format = self.cfg.config.format;
        let mut renames: Vec<(i32, String)> = Vec::new();
        if let Some((id, windows)) = active_workspace {
            if windows == 0 {
                renames.push((id, workspace_name(id, "", &self.cfg.config.format)));
                proof {
                    reveal_strlit("");
                }
            }
        }
        assert(renames_view(renames@) =~= empty_workspace_rename(active_workspace, format));
        let ghost input = clients@;
        let filtered = filter_clients(clients, &self.cfg.config);
        proof {
            lemma_filtered_len(input, self.cfg.config);
            law_seen_workspaces(self.known(), filtered@);
        }
        let (workspaces, ids) = self.collect_workspaces(&filtered, active_client.as_str(), &self.cfg.config);
        let ghost ws = workspaces@;
        proof {
            if format.dedup {
                assert forall|i: int| 0 <= i < ws.len() implies (#[trigger] ws[i]).clients@.len()
                    <= i32::MAX by {
                    lemma_clients_on_len(filtered@, ids@[i]);
                }
            }
            assert forall|a: int, b: int| 0 <= a < b < ws.len() implies (#[trigger] ws[a]).id != (
            #[trigger] ws[b]).id by {
                assert(ids@[a] != ids@[b]);
            }
        }
        self.known_workspaces = set_of(&ids);
        assert(workspace_ids(ws) =~= ids@);
        let texts = self.generate_workspaces_string(workspaces, &self.cfg.config);
        let ghost before = renames@;
        let mut i: usize = 0;
        while i < ids.len()
            invariant
                i <= ids@.len(),
                ws.len() == ids@.len(),
                forall|q: int| 0 <= q < ids@.len() ==> (#[trigger] ws[q]).id == ids@[q],
                forall|a: int, b: int|
                    0 <= a < b < ws.len() ==> (#[trigger] ws[a]).id != (#[trigger] ws[b]).id,
                texts_view(texts@) == workspaces_texts(ws, format),
                format == self.cfg.config.format,
                renames_view(renames@) == renames_view(before) + workspace_renames(
                    ws.take(i as int),
                    format,
                ),
            decreases ids@.len() - i,
        {
            let id = ids[i];
            proof {
                lemma_workspaces_texts(ws, format, i as int);
                assert(texts@.contains_key(id));
            }
            let ghost prev_renames = renames@;
            match texts.get(&id) {
                Some(t) => {
                    assert(texts@[id] == *t);
                    assert(t@ == workspace_text(ws[i as int].clients@, format));
                    let name = workspace_name(id, t.as_str(), &self.cfg.config.format);
                    renames.push((id, name));
                    assert(renames_view(renames@) =~= renames_view(prev_renames).push(
                        (id, name@),
                    ));
                },
                None => {
                    assert(false);
                },
            }
            assert(ws.take(i + 1) =~= ws.take(i as int).push(ws[i as int]));
            assert(workspace_renames(ws.take(i + 1), format) =~= workspace_renames(
                ws.take(i as int),
                format,
            ).push((id, workspace_name_text(id, workspace_text(ws[i as int].clients@, format), format))));
            i = i + 1;
            assert(renames_view(renames@) =~= renames_view(before) + workspace_renames(
                ws.take(i as int),
                format,
            ));
        }
        assert(ws.take(i as int) =~= ws);
        assert(workspaces_of(
            ws,
            workspace_ids(ws),
            filtered_clients(input, self.cfg.config),
            active_client@,
            self.cfg.config,
        ));
        renames
    }

    /// The renames that clear every known workspace, each once and in no
    /// particular order: each is renamed from the empty-workspace format of
    /// `config`.
    pub fn reset_workspaces(&self, config: &ConfigFile) -> (res: Vec<(i32, String)>)
        ensures
            lists_once(renames_view(res@).map_values(|r: (i32, Seq<char>)| r.0), self.known()),
            forall|i: int|
                0 <= i < res@.len() ==> (#[trigger] res@[i]).1@ == workspace_name_text(
                    res@[i].0,
                    ""@,
                    config.format,
                ),
    {
        let ids = known_ids(&self.known_workspaces);
        let mut renames: Vec<(i32, String)> = Vec::new();
        let mut i: usize = 0;
        while i < ids.len()
            invariant
                i <= ids@.len(),
                renames@.len() == i,
                forall|q: int| 0 <= q < i ==> (#[trigger] renames@[q]).0 == ids@[q],
                forall|q: int|
                    0 <= q < i ==> (#[trigger] renames@[q]).1@ == workspace_name_text(
                        renames@[q].0,
                        ""@,
                        config.format,
                    ),
            decreases ids@.len() - i,
        {
            let id = ids[i];
            let name = workspace_name(id, "", &config.format);
            renames.push((id, name));
            i = i + 1;
        }
        assert(renames_view(renames@).map_values(|r: (i32, Seq<char>)| r.0) =~= ids@);
        renames
    }

    /// Forgets a destroyed workspace. A regular workspace is forgotten by
    /// its id, and the answer is whether it was known; a name that is not a
    /// number gives an error and changes nothing. A special workspace was
    /// never known: the answer is `false`.
    pub fn remove_workspace(&mut self, wt: WorkspaceKind) -> (res: Result<bool, InvalidWorkspaceId>)
        ensures
            final(self).cfg_spec() == old(self).cfg_spec(),
            final(self).args_spec() == old(self).args_spec(),
            match wt {
                WorkspaceKind::Regular(name) => match parsed_i32(name@) {
                    Some(x) => res == Ok::<bool, InvalidWorkspaceId>(old(self).known().contains(x))
                        && final(self).known() == old(self).known().remove(x),
                    None => res == Err::<bool, InvalidWorkspaceId>(InvalidWorkspaceId)
                        && final(self).known() == old(self).known(),
                },
                WorkspaceKind::Special(_) => res == Ok::<bool, InvalidWorkspaceId>(false)
                    && final(self).known() == old(self).known(),
            },
    {
        match wt {
            WorkspaceKind::Regular(name) => match parse_i32(name.as_str()) {
                Some(x) => Ok(self.known_workspaces.remove(&x)),
                None => Err(InvalidWorkspaceId),
            },
            WorkspaceKind::Special(_) => Ok(false),
        }
    }
}


// ---------------------------------------------------------------------------
// Laws of the renamer
// ---------------------------------------------------------------------------

/// A reset clears every name a rename gave: the workspaces a rename names
/// (those it groups the windows into, which [`Renamer::rename_workspace`]
/// states are the known ones, each once) are exactly the workspaces a reset
/// of the same known set renames ([`Renamer::reset_workspaces`]).
pub proof fn law_reset_clears_every_renamed_workspace(
    workspaces: Seq<AppWorkspace>,
    known: Set<i32>,
    cleared: Seq<i32>,
    format: ConfigFormatRaw,
)
    requires
        lists_once(workspace_ids(workspaces), known),
        lists_once(cleared, known),
    ensures
        workspace_renames(workspaces, format).map_values(|r: (i32, Seq<char>)| r.0).to_set()
            == cleared.to_set(),
{
    let ids = workspace_renames(workspaces, format).map_values(|r: (i32, Seq<char>)| r.0);
    assert(ids =~= workspace_ids(workspaces));
}

/// Every window counts as a duplicate of itself.
pub proof fn law_same_client_reflexive(a: AppClient)
    ensures
        same_client(a, a),
{
}

/// Two windows that agree on merging fullscreen windows are duplicates of
/// each other both ways or neither way.
pub proof fn law_same_client_symmetric(a: AppClient, b: AppClient)
    requires
        a.is_dedup_inactive_fullscreen == b.is_dedup_inactive_fullscreen,
    ensures
        same_client(a, b) == same_client(b, a),
{
}

/// The windows that are kept all have a class and none is excluded; every
/// window with a class that is not excluded is kept.
pub proof fn law_filtered_clients(clients: Seq<ClientInfo>, config: ConfigFile)
    ensures
        forall|i: int|
            0 <= i < filtered_clients(clients, config).len() ==> kept_client(
                config,
                #[trigger] filtered_clients(clients, config)[i],
            ),
        forall|i: int|
            0 <= i < clients.len() && kept_client(config, #[trigger] clients[i])
                ==> filtered_clients(clients, config).contains(clients[i]),
    decreases clients.len(),
{
    if clients.len() > 0 {
        let prev = clients.drop_last();
        law_filtered_clients(prev, config);
        let f = filtered_clients(prev, config);
        let last = clients.last();
        if kept_client(config, last) {
            assert forall|i: int| 0 <= i < f.push(last).len() implies kept_client(
                config,
                #[trigger] f.push(last)[i],
            ) by {
                if i < f.len() {
                    assert(f.push(last)[i] == f[i]);
                }
            }
            assert forall|i: int|
                0 <= i < clients.len() && kept_client(config, #[trigger] clients[i]) implies f.push(
                last,
            ).contains(clients[i]) by {
                if i < prev.len() {
                    assert(prev[i] == clients[i]);
                    let k = choose|k: int| 0 <= k < f.len() && f[k] == prev[i];
                    assert(f.push(last)[k] == f[k]);
                } else {
                    assert(f.push(last)[f.len() as int] == last);
                }
            }
        } else {
            assert forall|i: int|
                0 <= i < clients.len() && kept_client(config, #[trigger] clients[i]) implies f.contains(
                clients[i],
            ) by {
                if i < prev.len() {
                    assert(prev[i] == clients[i]);
                }
            }
        }
    }
}


/// An exclude entry drops a window only when its class pattern matches the
/// window's class and its title pattern matches the window's title. A
/// window with a class that no entry matches on both is kept, whatever its
/// title; in particular a window whose class no entry's class pattern
/// matches is kept. And a kept window has a class and is matched on both
/// by no entry.
pub proof fn law_exclusion_needs_class_and_title(clients: Seq<ClientInfo>, config: ConfigFile)
    ensures
        forall|i: int|
            0 <= i < clients.len() && (#[trigger] clients[i]).class@.len() > 0 && (forall|k: int|
                0 <= k < config.exclude@.len() ==> !(regex_matches(
                    config.exclude@[k].0@,
                    clients[i].class@,
                ) && regex_matches(config.exclude@[k].1@, clients[i].title@))) ==> filtered_clients(
                clients,
                config,
            ).contains(clients[i]),
        forall|i: int|
            0 <= i < clients.len() && (#[trigger] clients[i]).class@.len() > 0 && (forall|k: int|
                0 <= k < config.exclude@.len() ==> !regex_matches(
                    config.exclude@[k].0@,
                    clients[i].class@,
                )) ==> filtered_clients(clients, config).contains(clients[i]),
        forall|j: int|
            0 <= j < filtered_clients(clients, config).len() ==> {
                let c = #[trigger] filtered_clients(clients, config)[j];
                &&& c.class@.len() > 0
                &&& forall|k: int|
                    0 <= k < config.exclude@.len() ==> !(regex_matches(
                        config.exclude@[k].0@,
                        c.class@,
                    ) && regex_matches(config.exclude@[k].1@, c.title@))
            },
{
    law_filtered_clients(clients, config);
    assert forall|i: int|
        0 <= i < clients.len() && (#[trigger] clients[i]).class@.len() > 0 && (forall|k: int|
            0 <= k < config.exclude@.len() ==> !(regex_matches(
                config.exclude@[k].0@,
                clients[i].class@,
            ) && regex_matches(config.exclude@[k].1@, clients[i].title@))) implies filtered_clients(
        clients,
        config,
    ).contains(clients[i]) by {
        assert(kept_client(config, clients[i]));
    }
    assert forall|j: int| 0 <= j < filtered_clients(clients, config).len() implies {
        let c = #[trigger] filtered_clients(clients, config)[j];
        &&& c.class@.len() > 0
        &&& forall|k: int|
            0 <= k < config.exclude@.len() ==> !(regex_matches(config.exclude@[k].0@, c.class@)
                && regex_matches(config.exclude@[k].1@, c.title@))
    } by {
        let c = filtered_clients(clients, config)[j];
        assert(kept_client(config, c));
        assert forall|k: int| 0 <= k < config.exclude@.len() implies !(regex_matches(
            config.exclude@[k].0@,
            c.class@,
        ) && regex_matches(config.exclude@[k].1@, c.title@)) by {
            if regex_matches(config.exclude@[k].0@, c.class@) && regex_matches(
                config.exclude@[k].1@,
                c.title@,
            ) {
                assert(excluded(config.exclude@, c));
            }
        }
    }
}


/// Whether `vars` gives every workspace placeholder its value: `{id}` the
/// id in decimal, `{id_long}` the id on two digits, `{delim}` the
/// delimiter and `{clients}` the text of the workspace's clients.
pub open spec fn workspace_placeholders(
    vars: Map<Seq<char>, Seq<char>>,
    id: i32,
    clients: Seq<char>,
    format: ConfigFormatRaw,
) -> bool {
    &&& vars.contains_key("id"@) && vars["id"@] == decimal(id as int)
    &&& vars.contains_key("id_long"@) && vars["id_long"@] == decimal_pad2(id as int)
    &&& vars.contains_key("delim"@) && vars["delim"@] == format.delim@
    &&& vars.contains_key("clients"@) && vars["clients"@] == clients
}

/// A workspace's name is the `workspace` format, or the `workspace_empty`
/// format when its clients give no text, filled in from the workspace
/// ([`workspace_placeholders`]) and without surrounding white space.
pub proof fn law_workspace_name_fills_placeholders(
    id: i32,
    clients: Seq<char>,
    format: ConfigFormatRaw,
)
    ensures
        exists|vars: Map<Seq<char>, Seq<char>>|
            #[trigger] workspace_placeholders(vars, id, clients, format) && workspace_name_text(
                id,
                clients,
                format,
            ) == trimmed(
                formatted(
                    if clients.len() > 0 {
                        format.workspace@
                    } else {
                        format.workspace_empty@
                    },
                    vars,
                ),
            ),
{
    reveal_strlit("id");
    reveal_strlit("id_long");
    reveal_strlit("delim");
    reveal_strlit("clients");
    assert("id"@.len() != "id_long"@.len());
    assert("id"@.len() != "delim"@.len());
    assert("id"@.len() != "clients"@.len());
    assert("id_long"@.len() != "delim"@.len());
    assert("id_long"@[0] != "clients"@[0]);
    assert("delim"@.len() != "clients"@.len());
    let vars = workspace_vars(id, clients, format);
    assert(workspace_placeholders(vars, id, clients, format));
}

/// The active workspace is renamed first, from the empty-workspace format,
/// exactly when it holds no window; otherwise, or when there is no active
/// workspace, nothing comes before the other renames.
pub proof fn law_empty_active_workspace_renamed(id: i32, windows: u16, format: ConfigFormatRaw)
    ensures
        windows == 0 ==> empty_workspace_rename(Some((id, windows)), format) == seq![
            (id, workspace_name_text(id, ""@, format)),
        ],
        windows != 0 ==> empty_workspace_rename(Some((id, windows)), format).len() == 0,
        empty_workspace_rename(None, format).len() == 0,
{
}

} // verus!
