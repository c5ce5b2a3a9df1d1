//! The typed configuration: options for all packages, for each variant, and for
//! each package of a variant.

use crate::table::{keys_ascend, Table};
use crate::text::same_text;
use vstd::prelude::*;

verus! {

/// The first entry of the default `apex_available` list.
pub open spec fn apex_platform() -> Seq<char> {
    "//apex_available:platform"@
}

/// The second entry of the default `apex_available` list.
pub open spec fn apex_anyapex() -> Seq<char> {
    "//apex_available:anyapex"@
}

/// The `apex_available` list of a variant that names none.
pub open spec fn default_apex() -> Seq<Seq<char>> {
    seq![apex_platform(), apex_anyapex()]
}

/// The `apex_available` list of a variant that names none.
pub fn default_apex_available() -> (list: Vec<String>)
    ensures
        list.deep_view() == default_apex(),
{
    let mut list: Vec<String> = Vec::new();
    list.push("//apex_available:platform".to_string());
    list.push("//apex_available:anyapex".to_string());
    assert(list.deep_view() =~= default_apex());
    list
}

/// Whether a list is the default `apex_available` list.
pub fn is_default_apex_available(apex_available: &[String]) -> (r: bool)
    ensures
        r == (apex_available.deep_view() == default_apex()),
{
    let r = apex_available.len() == 2 && same_text(
        apex_available[0].as_str(),
        "//apex_available:platform",
    ) && same_text(apex_available[1].as_str(), "//apex_available:anyapex");
    proof {
        let model = apex_available.deep_view();
        if r {
            assert(model =~= default_apex());
        } else if model == default_apex() {
            assert(model.len() == 2);
            assert(model[0] == apex_platform());
            assert(model[1] == apex_anyapex());
        }
    }
    r
}

/// The default of an option that is on unless it is switched off.
pub fn default_true() -> (r: bool)
    ensures
        r,
{
    true
}

/// Whether an option is on.
pub fn is_true(value: &bool) -> (r: bool)
    ensures
        r == *value,
{
    *value
}

/// Whether an option is off.
pub fn is_false(value: &bool) -> (r: bool)
    ensures
        r == !*value,
{
    !*value
}

/// Options of a package that hold for all variants.
#[derive(Clone, Debug, PartialEq, Eq)]
pub struct PackageConfig {
    /// File whose content is appended to the generated build file.
    pub add_toplevel_block: Option<String>,
    /// Patch file applied after the build file is generated.
    pub patch: Option<String>,
}

/// The model of a [`PackageConfig`].
pub struct PackageConfigView {
    pub add_toplevel_block: Option<Seq<char>>,
    pub patch: Option<Seq<char>>,
}

impl PackageConfigView {
    /// The options of a package for which nothing is configured.
    pub open spec fn initial() -> PackageConfigView {
        PackageConfigView { add_toplevel_block: None, patch: None }
    }
}

impl DeepView for PackageConfig {
    type V = PackageConfigView;

    open spec fn deep_view(&self) -> PackageConfigView {
        PackageConfigView {
            add_toplevel_block: self.add_toplevel_block.deep_view(),
            patch: self.patch.deep_view(),
        }
    }
}

impl View for PackageConfig {
    type V = PackageConfigView;

    open spec fn view(&self) -> PackageConfigView {
        self.deep_view()
    }
}

impl Default for PackageConfig {
    fn default() -> (r: Self)
        ensures
            r@ == PackageConfigView::initial(),
    {
        PackageConfig { add_toplevel_block: None, patch: None }
    }
}

/// Options of a package within one variant.
#[derive(Clone, Debug, PartialEq, Eq)]
pub struct PackageVariantConfig {
    /// Link against `alloc`. Only valid if `no_std` is also true.
    pub alloc: bool,
    /// Whether to compile for device.
    pub device_supported: bool,
    /// Whether to compile for host.
    pub host_supported: bool,
    /// Build host modules for the first architecture only.
    pub host_first_multilib: bool,
    /// Generate an rlib-only library module.
    pub force_rlib: bool,
    /// Whether to keep test modules out of presubmit.
    pub no_presubmit: bool,
    /// File with content to append to the end of each generated module.
    pub add_module_block: Option<String>,
    /// Modules that are not added as dependencies of generated modules.
    pub dep_blocklist: Vec<String>,
    /// Link against `core` only, not `std`.
    pub no_std: bool,
    /// Copy the build script's output and add a rule that provides it.
    pub copy_out: bool,
    /// Extra data files of tests, by test source file.
    pub test_data: Table<Vec<String>>,
}

/// The model of a [`PackageVariantConfig`].
pub struct PackageVariantConfigView {
    pub alloc: bool,
    pub device_supported: bool,
    pub host_supported: bool,
    pub host_first_multilib: bool,
    pub force_rlib: bool,
    pub no_presubmit: bool,
    pub add_module_block: Option<Seq<char>>,
    pub dep_blocklist: Seq<Seq<char>>,
    pub no_std: bool,
    pub copy_out: bool,
    pub test_data: Seq<(Seq<char>, Seq<Seq<char>>)>,
}

impl PackageVariantConfigView {
    /// The options of a package for which a variant configures nothing.
    pub open spec fn initial() -> PackageVariantConfigView {
        PackageVariantConfigView {
            alloc: false,
            device_supported: true,
            host_supported: true,
            host_first_multilib: false,
            force_rlib: false,
            no_presubmit: false,
            add_module_block: None,
            dep_blocklist: Seq::empty(),
            no_std: false,
            copy_out: false,
            test_data: Seq::empty(),
        }
    }
}

impl PackageVariantConfigView {
    /// Whether every table holds its names in ascending order, each once.
    pub open spec fn ordered(self) -> bool {
        keys_ascend(self.test_data)
    }
}

impl DeepView for PackageVariantConfig {
    type V = PackageVariantConfigView;

    open spec fn deep_view(&self) -> PackageVariantConfigView {
        PackageVariantConfigView {
            alloc: self.alloc,
            device_supported: self.device_supported,
            host_supported: self.host_supported,
            host_first_multilib: self.host_first_multilib,
            force_rlib: self.force_rlib,
            no_presubmit: self.no_presubmit,
            add_module_block: self.add_module_block.deep_view(),
            dep_blocklist: self.dep_blocklist.deep_view(),
            no_std: self.no_std,
            copy_out: self.copy_out,
            test_data: self.test_data@,
        }
    }
}

impl View for PackageVariantConfig {
    type V = PackageVariantConfigView;

    open spec fn view(&self) -> PackageVariantConfigView {
        self.deep_view()
    }
}

impl Default for PackageVariantConfig {
    fn default() -> (r: Self)
        ensures
            r@ == PackageVariantConfigView::initial(),
    {
        let r = PackageVariantConfig {
            alloc: false,
            device_supported: true,
            host_supported: true,
            host_first_multilib: false,
            force_rlib: false,
            no_presubmit: false,
            add_module_block: None,
            dep_blocklist: Vec::new(),
            no_std: false,
            copy_out: false,
            test_data: Table::new(),
        };
        assert(r.dep_blocklist.deep_view() =~= Seq::<Seq<char>>::empty());
        r
    }
}

/// Options of one variant, for all its packages.
#[derive(Clone, Debug, PartialEq, Eq)]
pub struct VariantConfig {
    /// Whether to output test modules.
    pub tests: bool,
    /// Features to enable. If not set, the default features of the package are used.
    pub features: Option<Vec<String>>,
    /// Whether to build the whole workspace.
    pub workspace: bool,
    /// When the workspace is built, members to leave out.
    pub workspace_excludes: Vec<String>,
    /// What every generated module names as its `defaults`.
    pub global_defaults: Option<String>,
    /// What every generated library module lists as `apex_available`.
    pub apex_available: Vec<String>,
    /// What every generated library module states as `product_available`.
    pub product_available: bool,
    /// What every generated library module states as `vendor_available`.
    pub vendor_available: bool,
    /// Minimum SDK version.
    pub min_sdk_version: Option<String>,
    /// New names for modules, by the name that would be generated.
    pub module_name_overrides: Table<String>,
    /// Options of single packages.
    pub package: Table<PackageVariantConfig>,
    /// `cfg` flags that are left out.
    pub cfg_blocklist: Vec<String>,
    /// Modules that are not generated.
    pub module_blocklist: Vec<String>,
    /// The `visibility` of modules, by module name.
    pub module_visibility: Table<Vec<String>>,
    /// Whether to run the build and read its output, rather than the metadata alone.
    pub run_cargo: bool,
}

/// The model of a [`VariantConfig`].
pub struct VariantConfigView {
    pub tests: bool,
    pub features: Option<Seq<Seq<char>>>,
    pub workspace: bool,
    pub workspace_excludes: Seq<Seq<char>>,
    pub global_defaults: Option<Seq<char>>,
    pub apex_available: Seq<Seq<char>>,
    pub product_available: bool,
    pub vendor_available: bool,
    pub min_sdk_version: Option<Seq<char>>,
    pub module_name_overrides: Seq<(Seq<char>, Seq<char>)>,
    pub package: Seq<(Seq<char>, PackageVariantConfigView)>,
    pub cfg_blocklist: Seq<Seq<char>>,
    pub module_blocklist: Seq<Seq<char>>,
    pub module_visibility: Seq<(Seq<char>, Seq<Seq<char>>)>,
    pub run_cargo: bool,
}

impl VariantConfigView {
    /// The options of a variant that configures nothing.
    pub open spec fn initial() -> VariantConfigView {
        VariantConfigView {
            tests: false,
            features: None,
            workspace: false,
            workspace_excludes: Seq::empty(),
            global_defaults: None,
            apex_available: default_apex(),
            product_available: true,
            vendor_available: true,
            min_sdk_version: None,
            module_name_overrides: Seq::empty(),
            package: Seq::empty(),
            cfg_blocklist: Seq::empty(),
            module_blocklist: Seq::empty(),
            module_visibility: Seq::empty(),
            run_cargo: true,
        }
    }
}

impl VariantConfigView {
    /// Whether every table, at any depth, holds its names in ascending order,
    /// each once.
    pub open spec fn ordered(self) -> bool {
        &&& keys_ascend(self.module_name_overrides)
        &&& keys_ascend(self.package)
        &&& keys_ascend(self.module_visibility)
        &&& forall|i: int| 0 <= i < self.package.len() ==> (#[trigger] self.package[i]).1.ordered()
    }
}

impl DeepView for VariantConfig {
    type V = VariantConfigView;

    open spec fn deep_view(&self) -> VariantConfigView {
        VariantConfigView {
            tests: self.tests,
            features: self.features.deep_view(),
            workspace: self.workspace,
            workspace_excludes: self.workspace_excludes.deep_view(),
            global_defaults: self.global_defaults.deep_view(),
            apex_available: self.apex_available.deep_view(),
            product_available: self.product_available,
            vendor_available: self.vendor_available,
            min_sdk_version: self.min_sdk_version.deep_view(),
            module_name_overrides: self.module_name_overrides@,
            package: self.package@,
            cfg_blocklist: self.cfg_blocklist.deep_view(),
            module_blocklist: self.module_blocklist.deep_view(),
            module_visibility: self.module_visibility@,
            run_cargo: self.run_cargo,
        }
    }
}

impl View for VariantConfig {
    type V = VariantConfigView;

    open spec fn view(&self) -> VariantConfigView {
        self.deep_view()
    }
}

impl Default for VariantConfig {
    fn default() -> (r: Self)
        ensures
            r@ == VariantConfigView::initial(),
    {
        let r = VariantConfig {
            tests: false,
            features: None,
            workspace: false,
            workspace_excludes: Vec::new(),
            global_defaults: None,
            apex_available: default_apex_available(),
            product_available: true,
            vendor_available: true,
            min_sdk_version: None,
            module_name_overrides: Table::new(),
            package: Table::new(),
            cfg_blocklist: Vec::new(),
            module_blocklist: Vec::new(),
            module_visibility: Table::new(),
            run_cargo: true,
        };
        assert(r.workspace_excludes.deep_view() =~= Seq::<Seq<char>>::empty());
        assert(r.cfg_blocklist.deep_view() =~= Seq::<Seq<char>>::empty());
        assert(r.module_blocklist.deep_view() =~= Seq::<Seq<char>>::empty());
        r
    }
}

/// Options that apply to everything.
#[derive(Clone, Debug, PartialEq, Eq)]
pub struct Config {
    /// The variants, each of which is built on its own.
    pub variants: Vec<VariantConfig>,
    /// Options of single packages, for all variants.
    pub package: Table<PackageConfig>,
}

/// The model of a [`Config`].
pub struct ConfigView {
    pub variants: Seq<VariantConfigView>,
    pub package: Seq<(Seq<char>, PackageConfigView)>,
}

impl ConfigView {
    /// Whether every table, at any depth, holds its names in ascending order,
    /// each once.
    pub open spec fn ordered(self) -> bool {
        &&& keys_ascend(self.package)
        &&& forall|i: int| 0 <= i < self.variants.len() ==> (#[trigger] self.variants[i]).ordered()
    }
}

impl DeepView for Config {
    type V = ConfigView;

    open spec fn deep_view(&self) -> ConfigView {
        ConfigView { variants: self.variants.deep_view(), package: self.package@ }
    }
}

impl View for Config {
    type V = ConfigView;

    open spec fn view(&self) -> ConfigView {
        self.deep_view()
    }
}

} // verus!
