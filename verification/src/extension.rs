//! The data model of extensions: permission declarations and their risk,
//! what an extension contributes, its manifest blocks, where it was loaded
//! from, the events of the extension system, and Hub listings. The wire
//! (JSON) forms of these types live with the application's serializers.
use vstd::prelude::*;

verus! {

/// Network access permission: unrestricted (`true`) or scoped to domains.
#[derive(Debug, Clone, PartialEq)]
pub enum NetworkPermission {
    /// Unrestricted network access (dangerous).
    Unrestricted(bool),
    /// Domain-scoped network access (moderate).
    Scoped { allowed_domains: Vec<String>, reasoning: String },
}

/// Filesystem access scope.
#[derive(Debug, Clone, Copy, PartialEq, Eq, Hash, Structural)]
pub enum FilesystemScope {
    ExtensionOnly,
    Workspace,
    Full,
}

/// The permissions an extension declares; each is optional.
#[derive(Debug, Clone, PartialEq)]
pub struct ExtPermissions {
    pub storage: Option<bool>,
    pub network: Option<NetworkPermission>,
    pub shell: Option<bool>,
    pub filesystem: Option<FilesystemScope>,
    pub clipboard: Option<bool>,
    pub active_user: Option<bool>,
    pub events: Option<bool>,
}

impl Default for ExtPermissions {
    /// No permission declared.
    fn default() -> (p: Self)
        ensures
            p.storage is None,
            p.network is None,
            p.shell is None,
            p.filesystem is None,
            p.clipboard is None,
            p.active_user is None,
            p.events is None,
    {
        ExtPermissions {
            storage: None,
            network: None,
            shell: None,
            filesystem: None,
            clipboard: None,
            active_user: None,
            events: None,
        }
    }
}

/// Overall risk level derived from permission declarations.
#[derive(Debug, Clone, Copy, PartialEq, Eq, Hash, Structural)]
pub enum RiskLevel {
    Safe,
    Moderate,
    Dangerous,
}

/// Granularity of a single permission entry.
#[derive(Debug, Clone, Copy, PartialEq, Eq, Hash, Structural)]
pub enum PermissionLevel {
    /// No access (`none` on the wire).
    NoAccess,
    Limited,
    Full,
}

/// A single permission detail for display.
#[derive(Debug, Clone, PartialEq)]
pub struct PermissionDetail {
    pub permission: String,
    pub level: PermissionLevel,
    pub description: String,
}

/// Complete permission analysis summary.
#[derive(Debug, Clone, PartialEq)]
pub struct PermissionSummary {
    pub permissions: ExtPermissions,
    pub risk_level: RiskLevel,
    pub details: Vec<PermissionDetail>,
}

/// Assistant contributed by an extension.
#[derive(Debug, Clone, PartialEq)]
pub struct ExtAssistant {
    pub id: String,
    pub name: String,
    pub description: Option<String>,
    pub system_prompt: Option<String>,
    pub icon: Option<String>,
    pub context: Option<String>,
}

/// Autonomous agent contributed by an extension.
#[derive(Debug, Clone, PartialEq)]
pub struct ExtAgent {
    pub id: String,
    pub name: String,
    pub description: Option<String>,
    pub agent_type: Option<String>,
    pub context: Option<String>,
    pub icon: Option<String>,
}

/// Skill contributed by an extension.
#[derive(Debug, Clone, PartialEq)]
pub struct ExtSkill {
    pub name: String,
    pub description: Option<String>,
    pub path: Option<String>,
}

/// Theme contributed by an extension.
#[derive(Debug, Clone, PartialEq)]
pub struct ExtTheme {
    pub id: String,
    pub name: String,
    pub description: Option<String>,
    /// Relative path to the CSS file.
    pub css_file: String,
    pub cover_image: Option<String>,
}

/// Channel plugin contributed by an extension.
#[derive(Debug, Clone, PartialEq)]
pub struct ExtChannelPlugin {
    pub id: String,
    pub name: String,
    pub description: Option<String>,
    pub platform: Option<String>,
    pub entry_point: Option<String>,
}

/// WebUI route definition.
#[derive(Debug, Clone, PartialEq)]
pub struct ExtWebuiRoute {
    pub path: String,
    pub method: String,
    pub handler: String,
}

/// WebUI contribution from an extension.
#[derive(Debug, Clone, PartialEq)]
pub struct ExtWebui {
    pub id: String,
    pub directory: String,
    pub routes: Vec<ExtWebuiRoute>,
}

/// Settings tab position relative to a built-in tab.
#[derive(Debug, Clone, PartialEq)]
pub struct SettingsTabPosition {
    pub relative_to: String,
    pub placement: String,
}

/// Settings tab contributed by an extension.
#[derive(Debug, Clone, PartialEq)]
pub struct ExtSettingsTab {
    pub id: String,
    pub label: String,
    pub icon: Option<String>,
    pub url: String,
    pub position: Option<SettingsTabPosition>,
}

/// Model provider contributed by an extension.
#[derive(Debug, Clone, PartialEq)]
pub struct ExtModelProvider {
    pub id: String,
    pub name: String,
    pub description: Option<String>,
    pub protocol: Option<String>,
    pub base_url: Option<String>,
    pub models: Vec<String>,
}

/// The i18n block of a manifest.
#[derive(Debug, Clone, PartialEq)]
pub struct I18nConfig {
    pub locales: Vec<String>,
    pub directory: String,
}

/// The locale directory a manifest gets when it names none.
pub fn default_i18n_directory() -> (d: String)
    ensures
        d@ == "i18n"@,
{
    "i18n".to_owned()
}

impl I18nConfig {
    /// An i18n block for `locales` in the default directory.
    pub fn with_default_directory(locales: Vec<String>) -> (c: Self)
        ensures
            c.locales@ == locales@,
            c.directory@ == "i18n"@,
    {
        I18nConfig { locales, directory: default_i18n_directory() }
    }
}

/// Engine compatibility declaration.
#[derive(Debug, Clone, PartialEq)]
pub struct EngineConfig {
    pub aionui: Option<String>,
}

impl Default for EngineConfig {
    /// No engine constraint.
    fn default() -> (c: Self)
        ensures
            c.aionui is None,
    {
        EngineConfig { aionui: None }
    }
}

/// Lifecycle hook declarations (paths relative to the extension root).
#[derive(Debug, Clone, PartialEq)]
pub struct LifecycleHooks {
    pub on_install: Option<String>,
    pub on_uninstall: Option<String>,
    pub on_activate: Option<String>,
    pub on_deactivate: Option<String>,
}

impl Default for LifecycleHooks {
    /// No hook declared.
    fn default() -> (h: Self)
        ensures
            h.on_install is None,
            h.on_uninstall is None,
            h.on_activate is None,
            h.on_deactivate is None,
    {
        LifecycleHooks { on_install: None, on_uninstall: None, on_activate: None, on_deactivate: None }
    }
}

/// Where an extension was loaded from.
#[derive(Debug, Clone, Copy, PartialEq, Eq, Hash, Structural)]
pub enum ExtensionSource {
    Local,
    Appdata,
    Env,
}

/// Events emitted by the extension system.
#[derive(Debug, Clone, Copy, PartialEq, Eq, Hash, Structural)]
pub enum ExtensionSystemEvent {
    ExtensionActivated,
    ExtensionDeactivated,
    ExtensionInstalled,
    ExtensionUninstalled,
    RegistryReloaded,
    StatesPersisted,
}

/// Installation status of a Hub extension.
#[derive(Debug, Clone, Copy, PartialEq, Eq, Hash, Structural)]
pub enum HubExtensionStatus {
    NotInstalled,
    Installed,
    UpdateAvailable,
    Installing,
    InstallFailed,
}

/// A Hub extension entry with its runtime status.
#[derive(Debug, Clone, PartialEq)]
pub struct HubExtensionWithStatus {
    pub name: String,
    pub version: String,
    pub display_name: Option<String>,
    pub description: Option<String>,
    pub author: Option<String>,
    pub icon: Option<String>,
    pub tags: Vec<String>,
    pub bundled: bool,
    pub status: HubExtensionStatus,
}

/// A WebUI contribution after route validation.
#[derive(Debug, Clone, PartialEq)]
pub struct WebuiContribution {
    pub extension_name: String,
    pub id: String,
    pub directory: String,
    pub routes: Vec<ExtWebuiRoute>,
}

/// A settings tab after position parsing.
#[derive(Debug, Clone, PartialEq)]
pub struct ResolvedSettingsTab {
    pub extension_name: String,
    pub id: String,
    pub label: String,
    pub icon: Option<String>,
    pub url: String,
    pub position: Option<SettingsTabPosition>,
}

} // verus!
