//! Installation and activation of plugins under a fixed permission policy.
use vstd::prelude::*;
use crate::text::str_eq;
use crate::types::PluginManifest;

verus! {

/// Why the plugin host refused a request.
#[derive(Debug, PartialEq, Eq)]
pub enum PluginHostError {
    /// `(plugin_id, permission)`: the manifest asks for a permission outside the policy.
    UnknownPermission(String, String),
    AlreadyInstalled(String),
    NotInstalled(String),
}

/// The permissions a plugin may request.
pub open spec fn allowed_permission(p: Seq<char>) -> bool {
    ||| p == "project.read"@
    ||| p == "project.write"@
    ||| p == "integration.observe"@
    ||| p == "integration.control"@
    ||| p == "plugin.ui.mount"@
}

/// Every permission of `m` is allowed.
pub open spec fn manifest_valid(m: PluginManifest) -> bool {
    forall|i: int| 0 <= i < m.permissions@.len() ==> allowed_permission(#[trigger] m.permissions@[i]@)
}

/// `i` is the position of the first permission of `m` outside the policy.
pub open spec fn first_unknown_permission(m: PluginManifest, i: int) -> bool {
    &&& 0 <= i < m.permissions@.len()
    &&& !allowed_permission(m.permissions@[i]@)
    &&& forall|j: int| 0 <= j < i ==> allowed_permission(#[trigger] m.permissions@[j]@)
}

/// The verdict of `validate_manifest` on `m`.
pub open spec fn manifest_verdict(m: PluginManifest, r: Result<(), PluginHostError>) -> bool {
    match r {
        Ok(()) => manifest_valid(m),
        Err(PluginHostError::UnknownPermission(id, p)) => id@ == m.plugin_id@ && exists|i: int|
            first_unknown_permission(m, i) && #[trigger] m.permissions@[i]@ == p@,
        Err(_) => false,
    }
}

/// The allowed permissions, in ascending order.
pub fn allowed_permissions() -> (v: Vec<&'static str>)
    ensures
        v@.len() == 5,
        v@[0]@ == "integration.control"@,
        v@[1]@ == "integration.observe"@,
        v@[2]@ == "plugin.ui.mount"@,
        v@[3]@ == "project.read"@,
        v@[4]@ == "project.write"@,
        forall|p: Seq<char>| allowed_permission(p) <==> exists|i: int| 0 <= i < 5 && #[trigger] v@[i]@ == p,
{
    let mut v: Vec<&'static str> = Vec::new();
    v.push("integration.control");
    v.push("integration.observe");
    v.push("plugin.ui.mount");
    v.push("project.read");
    v.push("project.write");
    proof {
        assert forall|p: Seq<char>| allowed_permission(p) implies exists|i: int| 0 <= i < 5 && #[trigger] v@[i]@ == p by {
            if p == "integration.control"@ {
                assert(v@[0]@ == p);
            } else if p == "integration.observe"@ {
                assert(v@[1]@ == p);
            } else if p == "plugin.ui.mount"@ {
                assert(v@[2]@ == p);
            } else if p == "project.read"@ {
                assert(v@[3]@ == p);
            } else {
                assert(v@[4]@ == p);
            }
        }
    }
    v
}

fn is_allowed_permission(p: &str) -> (b: bool)
    ensures
        b == allowed_permission(p@),
{
    str_eq(p, "project.read") || str_eq(p, "project.write") || str_eq(p, "integration.observe")
        || str_eq(p, "integration.control") || str_eq(p, "plugin.ui.mount")
}

/// Checks every requested permission against the policy, in order.
pub fn validate_manifest(manifest: &PluginManifest) -> (r: Result<(), PluginHostError>)
    ensures
        manifest_verdict(*manifest, r),
        r is Ok <==> manifest_valid(*manifest),
{
    let n = manifest.permissions.len();
    let mut i: usize = 0;
    while i < n
        invariant
            n == manifest.permissions@.len(),
            i <= n,
            forall|j: int| 0 <= j < i ==> allowed_permission(#[trigger] manifest.permissions@[j]@),
        decreases n - i,
    {
        if !is_allowed_permission(manifest.permissions[i].as_str()) {
            let r = Err(
                PluginHostError::UnknownPermission(
                    manifest.plugin_id.clone(),
                    manifest.permissions[i].clone(),
                ),
            );
            assert(first_unknown_permission(*manifest, i as int));
            return r;
        }
        i = i + 1;
    }
    Ok(())
}

/// The plugins that are installed, in installation order, and the ids of
/// those that are enabled.
pub struct PluginRegistryView {
    pub installed: Seq<PluginManifest>,
    pub enabled: Set<Seq<char>>,
}

impl PluginRegistryView {
    pub open spec fn installed_ids(self) -> Seq<Seq<char>> {
        self.installed.map_values(|m: PluginManifest| m.plugin_id@)
    }

    pub open spec fn is_installed(self, id: Seq<char>) -> bool {
        self.installed_ids().contains(id)
    }

    /// No plugin is installed twice and only installed plugins are enabled.
    pub open spec fn consistent(self) -> bool {
        &&& self.installed_ids().no_duplicates()
        &&& forall|id: Seq<char>| #[trigger] self.enabled.contains(id) ==> self.is_installed(id)
    }
}

/// Installed plugins and their activation state.
#[derive(Debug)]
pub struct PluginRegistry {
    installed: Vec<PluginManifest>,
    enabled: Vec<String>,
}

impl View for PluginRegistry {
    type V = PluginRegistryView;

    closed spec fn view(&self) -> PluginRegistryView {
        PluginRegistryView {
            installed: self.installed@,
            enabled: self.enabled@.map_values(|s: String| s@).to_set(),
        }
    }
}

impl PluginRegistry {
    /// The internal invariant: the view is consistent and no id is enabled twice.
    pub closed spec fn wf(self) -> bool {
        &&& self@.consistent()
        &&& self.enabled@.map_values(|s: String| s@).no_duplicates()
    }

    /// An empty registry.
    pub fn new() -> (r: Self)
        ensures
            r@.installed.len() == 0,
            r@.enabled.is_empty(),
            r@.consistent(),
            r.wf(),
    {
        let r = PluginRegistry { installed: Vec::new(), enabled: Vec::new() };
        assert(r@.enabled =~= Set::<Seq<char>>::empty());
        r
    }

    fn find_installed(&self, plugin_id: &str) -> (r: bool)
        ensures
            r == self@.is_installed(plugin_id@),
    {
        let n = self.installed.len();
        let mut i: usize = 0;
        while i < n
            invariant
                n == self.installed@.len(),
                i <= n,
                forall|j: int| 0 <= j < i ==> self.installed@[j].plugin_id@ != plugin_id@,
            decreases n - i,
        {
            if str_eq(self.installed[i].plugin_id.as_str(), plugin_id) {
                assert(self@.installed_ids()[i as int] == plugin_id@);
                return true;
            }
            i = i + 1;
        }
        proof {
            if self@.is_installed(plugin_id@) {
                let k = choose|k: int| 0 <= k < self@.installed_ids().len() && self@.installed_ids()[k] == plugin_id@;
                assert(self.installed@[k].plugin_id@ == plugin_id@);
            }
        }
        false
    }

    fn find_enabled(&self, plugin_id: &str) -> (r: Option<usize>)
        ensures
            r is None <==> !self@.enabled.contains(plugin_id@),
            r matches Some(i) ==> i < self.enabled@.len() && self.enabled@[i as int]@ == plugin_id@,
    {
        let n = self.enabled.len();
        let mut i: usize = 0;
        let ghost names = self.enabled@.map_values(|s: String| s@);
        while i < n
            invariant
                n == self.enabled@.len(),
                names == self.enabled@.map_values(|s: String| s@),
                i <= n,
                forall|j: int| 0 <= j < i ==> self.enabled@[j]@ != plugin_id@,
            decreases n - i,
        {
            if str_eq(self.enabled[i].as_str(), plugin_id) {
                assert(names[i as int] == plugin_id@);
                return Some(i);
            }
            i = i + 1;
        }
        proof {
            if names.to_set().contains(plugin_id@) {
                let k = choose|k: int| 0 <= k < names.len() && names[k] == plugin_id@;
                assert(self.enabled@[k]@ == plugin_id@);
            }
        }
        None
    }

    /// Installs `manifest` when its permissions are allowed and its plugin id is new.
    pub fn install(&mut self, manifest: PluginManifest) -> (r: Result<(), PluginHostError>)
        requires
            old(self).wf(),
        ensures
            r is Ok <==> manifest_valid(manifest) && !old(self)@.is_installed(manifest.plugin_id@),
            r is Ok ==> final(self)@.installed == old(self)@.installed.push(manifest)
                && final(self)@.enabled == old(self)@.enabled,
            r is Err ==> final(self)@ == old(self)@,
            !manifest_valid(manifest) ==> manifest_verdict(manifest, r),
            manifest_valid(manifest) && old(self)@.is_installed(manifest.plugin_id@) ==> (r matches Err(
                PluginHostError::AlreadyInstalled(id),
            ) && id@ == manifest.plugin_id@),
            final(self).wf(),
            final(self)@.consistent(),
    {
        match validate_manifest(&manifest) {
            Err(e) => {
                return Err(e);
            },
            Ok(()) => {},
        }
        if self.find_installed(manifest.plugin_id.as_str()) {
            return Err(PluginHostError::AlreadyInstalled(manifest.plugin_id));
        }
        let ghost old_view = self@;
        let ghost m = manifest;
        self.installed.push(manifest);
        proof {
            assert(self@.installed_ids() =~= old_view.installed_ids().push(m.plugin_id@));
            assert(self@.enabled =~= old_view.enabled);
            assert forall|id: Seq<char>| #[trigger] self@.enabled.contains(id) implies self@.is_installed(id) by {
                assert(old_view.enabled.contains(id));
                assert(old_view.is_installed(id));
                let k = choose|k: int| 0 <= k < old_view.installed_ids().len() && old_view.installed_ids()[k] == id;
                assert(self@.installed_ids()[k] == id);
            }
        }
        Ok(())
    }

    /// Marks an installed plugin as enabled.
    pub fn enable(&mut self, plugin_id: &str) -> (r: Result<(), PluginHostError>)
        requires
            old(self).wf(),
        ensures
            r is Ok <==> old(self)@.is_installed(plugin_id@),
            r is Ok ==> final(self)@.installed == old(self)@.installed
                && final(self)@.enabled == old(self)@.enabled.insert(plugin_id@),
            r is Err ==> final(self)@ == old(self)@ && (r matches Err(PluginHostError::NotInstalled(id)) && id@ == plugin_id@),
            final(self).wf(),
            final(self)@.consistent(),
    {
        if !self.find_installed(plugin_id) {
            return Err(PluginHostError::NotInstalled(String::from_str(plugin_id)));
        }
        let ghost old_view = self@;
        let ghost old_names = self.enabled@.map_values(|s: String| s@);
        match self.find_enabled(plugin_id) {
            Some(_) => {
                assert(old_view.enabled.insert(plugin_id@) =~= old_view.enabled);
            },
            None => {
                self.enabled.push(String::from_str(plugin_id));
                proof {
                    let names = self.enabled@.map_values(|s: String| s@);
                    assert(names =~= old_names.push(plugin_id@));
                    assert forall|x: Seq<char>| self@.enabled.contains(x) <==> old_view.enabled.insert(plugin_id@).contains(x) by {
                        if names.contains(x) {
                            let k = choose|k: int| 0 <= k < names.len() && names[k] == x;
                            if k < old_names.len() {
                                assert(old_names[k] == x);
                                assert(old_names.contains(x));
                            }
                        }
                        if old_names.contains(x) {
                            let k = choose|k: int| 0 <= k < old_names.len() && old_names[k] == x;
                            assert(names[k] == x);
                        }
                        if x == plugin_id@ {
                            assert(names[names.len() - 1] == x);
                        }
                    }
                    assert(self@.enabled =~= old_view.enabled.insert(plugin_id@));
                    assert(names.no_duplicates()) by {
                        assert forall|a: int, b: int| 0 <= a < b < names.len() implies names[a] != names[b] by {
                            if b == names.len() - 1 {
                                assert(old_names.to_set().contains(old_names[a]));
                            }
                        }
                    }
                }
            },
        }
        Ok(())
    }

    /// Marks an installed plugin as disabled.
    pub fn disable(&mut self, plugin_id: &str) -> (r: Result<(), PluginHostError>)
        requires
            old(self).wf(),
        ensures
            r is Ok <==> old(self)@.is_installed(plugin_id@),
            r is Ok ==> final(self)@.installed == old(self)@.installed
                && final(self)@.enabled == old(self)@.enabled.remove(plugin_id@),
            r is Err ==> final(self)@ == old(self)@ && (r matches Err(PluginHostError::NotInstalled(id)) && id@ == plugin_id@),
            final(self).wf(),
            final(self)@.consistent(),
    {
        if !self.find_installed(plugin_id) {
            return Err(PluginHostError::NotInstalled(String::from_str(plugin_id)));
        }
        let ghost old_view = self@;
        let ghost old_names = self.enabled@.map_values(|s: String| s@);
        match self.find_enabled(plugin_id) {
            None => {
                assert(old_view.enabled.remove(plugin_id@) =~= old_view.enabled);
            },
            Some(i) => {
                self.enabled.remove(i);
                proof {
                    let names = self.enabled@.map_values(|s: String| s@);
                    assert(names =~= old_names.remove(i as int));
                    assert forall|a: int, b: int| 0 <= a < b < names.len() implies names[a] != names[b] by {
                        let a2 = if a < i { a } else { a + 1 };
                        let b2 = if b < i { b } else { b + 1 };
                        assert(names[a] == old_names[a2]);
                        assert(names[b] == old_names[b2]);
                    }
                    assert forall|x: Seq<char>| self@.enabled.contains(x) <==> old_view.enabled.remove(plugin_id@).contains(x) by {
                        if names.contains(x) {
                            let k = choose|k: int| 0 <= k < names.len() && names[k] == x;
                            let k2 = if k < i { k } else { k + 1 };
                            assert(old_names[k2] == x);
                            assert(k2 != i);
                            assert(old_names.contains(x));
                            assert(old_names[i as int] == plugin_id@);
                            assert(old_names.no_duplicates());
                            assert(x != plugin_id@);
                        }
                        if old_names.contains(x) && x != plugin_id@ {
                            let k = choose|k: int| 0 <= k < old_names.len() && old_names[k] == x;
                            assert(k != i);
                            let k2 = if k < i { k } else { k - 1 };
                            assert(names[k2] == x);
                            assert(names.contains(x));
                        }
                    }
                    assert(self@.enabled =~= old_view.enabled.remove(plugin_id@));
                }
            },
        }
        Ok(())
    }

    pub fn is_enabled(&self, plugin_id: &str) -> (b: bool)
        ensures
            b == self@.enabled.contains(plugin_id@),
    {
        self.find_enabled(plugin_id).is_some()
    }

    pub fn installed_count(&self) -> (n: usize)
        ensures
            n == self@.installed.len(),
    {
        self.installed.len()
    }
}

impl Default for PluginRegistry {
    fn default() -> (r: Self)
        ensures
            r@.installed.len() == 0,
            r@.enabled.is_empty(),
            r@.consistent(),
            r.wf(),
    {
        PluginRegistry::new()
    }
}


/// Installing, enabling and disabling round-trip: an installed plugin starts
/// disabled, enabling it makes it enabled, disabling it makes it disabled
/// again, and neither touches the installed plugins.
pub proof fn law_install_enable_disable_round_trip(
    before: PluginRegistryView,
    installed: PluginRegistryView,
    enabled: PluginRegistryView,
    disabled: PluginRegistryView,
    manifest: PluginManifest,
)
    requires
        before.consistent(),
        !before.is_installed(manifest.plugin_id@),
        installed.installed == before.installed.push(manifest) && installed.enabled == before.enabled,
        enabled.installed == installed.installed && enabled.enabled == installed.enabled.insert(manifest.plugin_id@),
        disabled.installed == enabled.installed && disabled.enabled == enabled.enabled.remove(manifest.plugin_id@),
    ensures
        installed.is_installed(manifest.plugin_id@),
        !installed.enabled.contains(manifest.plugin_id@),
        enabled.enabled.contains(manifest.plugin_id@),
        !disabled.enabled.contains(manifest.plugin_id@),
        disabled.installed == installed.installed,
        disabled.enabled == installed.enabled,
{
    assert(installed.installed_ids() =~= before.installed_ids().push(manifest.plugin_id@));
    assert(installed.installed_ids()[before.installed.len() as int] == manifest.plugin_id@);
    assert(disabled.enabled =~= installed.enabled);
}

} // verus!
