//! Per-deployment metadata kept by the application.

use vstd::prelude::*;
use crate::paths::{join_path, join_path_exec};
use crate::store::KeyedVec;

verus! {

/// What the application records about a deployment.
pub struct DeploymentMeta {
    pub framework: Option<String>,
    pub tags: Vec<String>,
    pub pinned: bool,
    pub custom_domain: Option<String>,
    pub linked_db: Option<String>,
    pub vhost_enabled: bool,
    pub ssl_enabled: bool,
    pub last_opened: Option<String>,
}

/// The contents of a `DeploymentMeta`.
pub struct MetaView {
    pub framework: Option<Seq<char>>,
    pub tags: Seq<Seq<char>>,
    pub pinned: bool,
    pub custom_domain: Option<Seq<char>>,
    pub linked_db: Option<Seq<char>>,
    pub vhost_enabled: bool,
    pub ssl_enabled: bool,
    pub last_opened: Option<Seq<char>>,
}

pub open spec fn opt_view(o: Option<String>) -> Option<Seq<char>> {
    match o {
        Some(s) => Some(s@),
        None => None,
    }
}

pub open spec fn strings_view(v: Seq<String>) -> Seq<Seq<char>> {
    v.map_values(|s: String| s@)
}

impl View for DeploymentMeta {
    type V = MetaView;

    open spec fn view(&self) -> MetaView {
        MetaView {
            framework: opt_view(self.framework),
            tags: strings_view(self.tags@),
            pinned: self.pinned,
            custom_domain: opt_view(self.custom_domain),
            linked_db: opt_view(self.linked_db),
            vhost_enabled: self.vhost_enabled,
            ssl_enabled: self.ssl_enabled,
            last_opened: opt_view(self.last_opened),
        }
    }
}

/// The metadata of a deployment that has none recorded.
pub open spec fn default_meta() -> MetaView {
    MetaView {
        framework: None,
        tags: Seq::empty(),
        pinned: false,
        custom_domain: None,
        linked_db: None,
        vhost_enabled: false,
        ssl_enabled: false,
        last_opened: None,
    }
}

impl Default for DeploymentMeta {
    fn default() -> (r: Self)
        ensures
            r@ == default_meta(),
    {
        let r = DeploymentMeta {
            framework: None,
            tags: Vec::new(),
            pinned: false,
            custom_domain: None,
            linked_db: None,
            vhost_enabled: false,
            ssl_enabled: false,
            last_opened: None,
        };
        assert(r@.tags =~= Seq::<Seq<char>>::empty());
        r
    }
}

/// A copy of an optional string.
pub fn copy_opt(o: &Option<String>) -> (r: Option<String>)
    ensures
        opt_view(r) == opt_view(*o),
{
    match o {
        Some(s) => Some(s.clone()),
        None => None,
    }
}

/// A copy of a list of strings.
pub fn copy_strings(v: &Vec<String>) -> (r: Vec<String>)
    ensures
        strings_view(r@) == strings_view(v@),
{
    let mut r: Vec<String> = Vec::new();
    let mut i: usize = 0;
    while i < v.len()
        invariant
            i <= v@.len(),
            r@.len() == i,
            forall|k: int| 0 <= k < i ==> (#[trigger] r@[k])@ == v@[k]@,
        decreases v@.len() - i,
    {
        r.push(v[i].clone());
        i = i + 1;
    }
    assert(strings_view(r@) =~= strings_view(v@));
    r
}

impl DeploymentMeta {
    /// A copy of this metadata.
    pub fn duplicate(&self) -> (r: Self)
        ensures
            r@ == self@,
    {
        DeploymentMeta {
            framework: copy_opt(&self.framework),
            tags: copy_strings(&self.tags),
            pinned: self.pinned,
            custom_domain: copy_opt(&self.custom_domain),
            linked_db: copy_opt(&self.linked_db),
            vhost_enabled: self.vhost_enabled,
            ssl_enabled: self.ssl_enabled,
            last_opened: copy_opt(&self.last_opened),
        }
    }
}

/// The metadata of every deployment, by deployment name.
pub struct MetaStore {
    deployments: KeyedVec<DeploymentMeta>,
}

impl View for MetaStore {
    type V = Map<Seq<char>, MetaView>;

    closed spec fn view(&self) -> Map<Seq<char>, MetaView> {
        self.deployments.map()
    }
}

impl MetaStore {
    /// The deployment names that have metadata, in the order they were added.
    pub closed spec fn names_seq(&self) -> Seq<Seq<char>> {
        self.deployments.keys()
    }

    /// What `get` gives for `name`: the recorded metadata, or the default.
    pub open spec fn meta_of(&self, name: Seq<char>) -> MetaView {
        if self@.contains_key(name) {
            self@[name]
        } else {
            default_meta()
        }
    }

    /// A store with no metadata.
    pub fn new() -> (r: Self)
        ensures
            r@ == Map::<Seq<char>, MetaView>::empty(),
            r.names_seq() == Seq::<Seq<char>>::empty(),
    {
        MetaStore { deployments: KeyedVec::new() }
    }

    /// The metadata of `name`, or the default when none is recorded.
    pub fn get(&self, name: &str) -> (r: DeploymentMeta)
        ensures
            r@ == self.meta_of(name@),
    {
        match self.deployments.get(name) {
            Some(m) => m.duplicate(),
            None => DeploymentMeta::default(),
        }
    }

    /// Records `meta` for `name`, replacing what was recorded.
    pub fn set(&mut self, name: String, meta: DeploymentMeta)
        ensures
            final(self)@ == old(self)@.insert(name@, meta@),
            old(self)@.contains_key(name@) ==> final(self).names_seq() == old(self).names_seq(),
            !old(self)@.contains_key(name@) ==> final(self).names_seq() == old(self).names_seq().push(
                name@,
            ),
    {
        self.deployments.view_facts();
        self.deployments.insert(name, meta);
    }

    /// Replaces the metadata of `name` by what `update` makes of it (starting
    /// from the default when none is recorded).
    pub fn update<F: FnOnce(DeploymentMeta) -> DeploymentMeta>(&mut self, name: &str, update: F)
        requires
            forall|m: DeploymentMeta| #[trigger] update.requires((m,)),
        ensures
            exists|m: DeploymentMeta, r: DeploymentMeta|
                m@ == old(self).meta_of(name@) && #[trigger] update.ensures((m,), r)
                    && final(self)@ == old(self)@.insert(name@, r@),
    {
        let meta = self.get(name);
        let ghost m = meta;
        let r = update(meta);
        let key = String::from_str(name);
        self.deployments.insert(key, r);
        assert(update.ensures((m,), r));
    }

    /// Forgets the metadata of `name`.
    pub fn remove(&mut self, name: &str)
        ensures
            final(self)@ == old(self)@.remove(name@),
            !old(self)@.contains_key(name@) ==> final(self).names_seq() == old(self).names_seq(),
            old(self)@.contains_key(name@) ==> exists|i: int|
                0 <= i < old(self).names_seq().len() && old(self).names_seq()[i] == name@
                    && final(self).names_seq() == old(self).names_seq().remove(i),
    {
        self.deployments.view_facts();
        let ghost before = self.deployments.keys();
        let _ = self.deployments.remove(name);
        proof {
            assert(old(self)@.contains_key(name@) ==> before.contains(name@));
            if before.contains(name@) {
                let i = choose|i: int|
                    0 <= i < before.len() && before[i] == name@ && self.deployments.keys()
                        == before.remove(i);
                assert(self.names_seq() == before.remove(i));
                assert(before[i] == name@);
                assert(before == old(self).names_seq());
                assert(old(self).names_seq()[i] == name@ && self.names_seq() == old(self).names_seq().remove(i));
            }
        }
    }

    /// The deployment names that have metadata.
    pub fn names(&self) -> (r: Vec<String>)
        ensures
            r@.map_values(|s: String| s@) == self.names_seq(),
            forall|k: Seq<char>| self@.contains_key(k) <==> #[trigger] self.names_seq().contains(k),
    {
        self.deployments.view_facts();
        let mut r: Vec<String> = Vec::new();
        let mut i: usize = 0;
        while i < self.deployments.len()
            invariant
                i <= self.deployments.keys().len(),
                r@.len() == i,
                forall|k: int| 0 <= k < i ==> (#[trigger] r@[k])@ == self.deployments.keys()[k],
            decreases self.deployments.keys().len() - i,
        {
            let (k, _) = self.deployments.at(i);
            r.push(k.clone());
            i = i + 1;
        }
        assert(r@.map_values(|s: String| s@) =~= self.names_seq());
        r
    }
}

/// Where the metadata file lives in the application data directory.
pub fn meta_file(app_data_dir: &str) -> (r: String)
    ensures
        r@ == join_path(app_data_dir@, "deployment-meta.json"@),
{
    join_path_exec(app_data_dir, "deployment-meta.json")
}

/// What a store gives for `name`, given its contents `m`: the recorded
/// metadata, or the default.
pub open spec fn meta_in(m: Map<Seq<char>, MetaView>, name: Seq<char>) -> MetaView {
    if m.contains_key(name) {
        m[name]
    } else {
        default_meta()
    }
}

/// Law: after metadata is set for a name, reading that name gives it back,
/// and every other name reads as before.
pub proof fn law_get_after_set(before: MetaStore, after: MetaStore, name: Seq<char>, meta: MetaView)
    requires
        after@ == before@.insert(name, meta),
    ensures
        after.meta_of(name) == meta,
        forall|other: Seq<char>| other != name ==> after.meta_of(other) == before.meta_of(other),
{
}

/// Law: after a name is removed, it reads as the default, and every other name
/// reads as before.
pub proof fn law_get_after_remove(before: MetaStore, after: MetaStore, name: Seq<char>)
    requires
        after@ == before@.remove(name),
    ensures
        after.meta_of(name) == default_meta(),
        forall|other: Seq<char>| other != name ==> after.meta_of(other) == before.meta_of(other),
{
}

} // verus!
