//! Installer packages: MSI and MSIX configurations and their XML.

use vstd::prelude::*;
use crate::platform::PlatformResult;
use crate::text::{append_str, append_string, decimal, string_push, u64_to_decimal};

verus! {

/// The name for the lowercase form of a text, by Unicode rules.
pub uninterp spec fn unicode_lowercase(s: Seq<char>) -> Seq<char>;

/// The lowercase form of a text.
///
/// Trusted: calls `str::to_lowercase`, which std documents as mapping each
/// character to its Unicode lowercase form; the result is named.
#[verifier::external_body]
fn to_lowercase(s: &str) -> (r: String)
    ensures
        r@ == unicode_lowercase(s@),
{
    s.to_lowercase()
}

/// The hash std's default hasher gives a text.
///
/// Trusted: calls `BuildHasher::hash_one` with `DefaultHasher`; std leaves
/// the algorithm unspecified and free to change between releases, so nothing
/// is promised of the value.
#[verifier::external_body]
fn default_hash(s: &String) -> (r: u64) {
    std::hash::BuildHasher::hash_one(
        &std::hash::BuildHasherDefault::<std::collections::hash_map::DefaultHasher>::default(),
        s,
    )
}

/// The uppercase hexadecimal digit of a value below sixteen.
pub open spec fn hex_digit_upper(d: int) -> char {
    if d < 10 {
        (d + 48) as char
    } else {
        (d + 55) as char
    }
}

/// `n` in uppercase hexadecimal with exactly `w` digits (the low `w` digits).
pub open spec fn hex_fixed(n: nat, w: nat) -> Seq<char>
    decreases w,
{
    if w == 0 {
        Seq::empty()
    } else {
        hex_fixed(n / 16, (w - 1) as nat).push(hex_digit_upper((n % 16) as int))
    }
}

/// Appends the low `w` hexadecimal digits of `n`, uppercase.
fn push_hex_fixed(s: &mut String, n: u64, w: u32)
    ensures
        final(s)@ == old(s)@ + hex_fixed(n as nat, w as nat),
    decreases w,
{
    if w == 0 {
        assert(old(s)@ + hex_fixed(n as nat, 0) =~= old(s)@);
        return;
    }
    push_hex_fixed(s, n / 16, w - 1);
    let d = (n % 16) as u8;
    let c = if d < 10 { (d + 48) as char } else { (d + 55) as char };
    string_push(s, c);
    assert(s@ =~= old(s)@ + hex_fixed(n as nat, w as nat));
}

/// The GUID text of an upgrade code made from a 64-bit hash:
/// `{XXXXXXXX-XXXX-XXXX-XXXX-XXXXXXXXXXXX}` with the high half, bits 16 to
/// 31, the low 16 bits, the top 16 bits and the low 48 bits of the hash.
pub open spec fn upgrade_code_text(h: u64) -> Seq<char> {
    seq!['{'] + hex_fixed((h / 0x1_0000_0000) as nat, 8) + seq!['-']
        + hex_fixed(((h / 0x1_0000) % 0x1_0000) as nat, 4) + seq!['-']
        + hex_fixed((h % 0x1_0000) as nat, 4) + seq!['-']
        + hex_fixed(((h / 0x1_0000_0000_0000) % 0x1_0000) as nat, 4) + seq!['-']
        + hex_fixed((h % 0x1_0000_0000_0000) as nat, 12) + seq!['}']
}

/// The upgrade-code GUID text of a hash.
pub fn format_upgrade_code(hash: u64) -> (r: String)
    ensures
        r@ == upgrade_code_text(hash),
{
    let mut s = String::new();
    string_push(&mut s, '{');
    push_hex_fixed(&mut s, hash / 0x1_0000_0000, 8);
    string_push(&mut s, '-');
    push_hex_fixed(&mut s, (hash / 0x1_0000) % 0x1_0000, 4);
    string_push(&mut s, '-');
    push_hex_fixed(&mut s, hash % 0x1_0000, 4);
    string_push(&mut s, '-');
    push_hex_fixed(&mut s, (hash / 0x1_0000_0000_0000) % 0x1_0000, 4);
    string_push(&mut s, '-');
    push_hex_fixed(&mut s, hash % 0x1_0000_0000_0000, 12);
    string_push(&mut s, '}');
    assert(s@ =~= upgrade_code_text(hash));
    s
}

/// A feature of an MSI installer.
#[derive(Clone, Debug)]
pub struct InstallerFeature {
    pub id: String,
    pub title: String,
    pub description: String,
    pub level: u32,
}

/// Where a shortcut is placed.
#[derive(Clone, Copy, Debug, PartialEq, Eq, Structural)]
pub enum ShortcutLocation {
    StartMenu,
    Desktop,
    Startup,
}

/// A shortcut made by an installer.
#[derive(Clone, Debug)]
pub struct Shortcut {
    pub name: String,
    pub target: String,
    pub location: ShortcutLocation,
}

/// A registry value written by an installer.
#[derive(Clone, Debug)]
pub struct RegistryKey {
    pub root: String,
    pub key: String,
    pub name: String,
    pub value: String,
}

/// MSI installer configuration.
#[derive(Clone, Debug)]
pub struct MSIConfig {
    pub product_name: String,
    pub product_version: String,
    pub manufacturer: String,
    pub upgrade_code: String,
    pub install_dir: String,
    pub features: Vec<InstallerFeature>,
    pub shortcuts: Vec<Shortcut>,
    pub registry_keys: Vec<RegistryKey>,
}

/// MSIX package configuration.
#[derive(Clone, Debug)]
pub struct MSIXConfig {
    pub package_name: String,
    pub package_version: String,
    pub publisher: String,
    pub publisher_display_name: String,
    pub identity_name: String,
    pub capabilities: Vec<String>,
    pub target_device_families: Vec<String>,
    pub min_version: String,
    pub max_version_tested: String,
}

/// The WiX lines of one feature.
pub open spec fn wix_feature(f: InstallerFeature) -> Seq<char> {
    "    <Feature Id=\""@ + f.id@ + "\" Title=\""@ + f.title@ + "\" Level=\""@ + decimal(f.level as nat) + "\">\n"@
        + "      <ComponentGroupRef Id=\""@ + f.id@ + "Components\" />\n"@ + "    </Feature>\n"@
}

/// The WiX lines of a list of features, in order.
pub open spec fn wix_features(fs: Seq<InstallerFeature>) -> Seq<char>
    decreases fs.len(),
{
    if fs.len() == 0 {
        Seq::empty()
    } else {
        wix_features(fs.drop_last()) + wix_feature(fs.last())
    }
}

/// The WiX source of an MSI configuration.
pub open spec fn wix_xml(c: MSIConfig) -> Seq<char> {
    "<?xml version=\"1.0\" encoding=\"UTF-8\"?>\n"@ + "<Wix xmlns=\"http://schemas.microsoft.com/wix/2006/wi\">\n"@
        + "  <Product Id=\"*\" Name=\""@ + c.product_name@ + "\" Language=\"1033\" Version=\""@ + c.product_version@
        + "\" Manufacturer=\""@ + c.manufacturer@ + "\" UpgradeCode=\""@ + c.upgrade_code@ + "\">\n"@
        + "    <Package InstallerVersion=\"200\" Compressed=\"yes\" InstallScope=\"perMachine\" />\n"@
        + "    <MajorUpgrade DowngradeErrorMessage=\"A newer version is already installed.\" />\n"@
        + "    <MediaTemplate EmbedCab=\"yes\" />\n"@ + wix_features(c.features@) + "  </Product>\n"@ + "</Wix>\n"@
}

/// The manifest lines of a list of capabilities, in order.
pub open spec fn capability_lines(cs: Seq<String>) -> Seq<char>
    decreases cs.len(),
{
    if cs.len() == 0 {
        Seq::empty()
    } else {
        capability_lines(cs.drop_last()) + "    <Capability Name=\""@ + cs.last()@ + "\" />\n"@
    }
}

/// The AppxManifest.xml of an MSIX configuration.
pub open spec fn appx_manifest(c: MSIXConfig) -> Seq<char> {
    "<?xml version=\"1.0\" encoding=\"utf-8\"?>\n"@
        + "<Package xmlns=\"http://schemas.microsoft.com/appx/manifest/foundation/windows10\"\n"@
        + "         xmlns:uap=\"http://schemas.microsoft.com/appx/manifest/uap/windows10\">\n"@
        + "  <Identity Name=\""@ + c.identity_name@ + "\" Publisher=\""@ + c.publisher@ + "\" Version=\""@
        + c.package_version@ + "\" />\n"@ + "  <Properties>\n"@ + "    <DisplayName>"@ + c.package_name@
        + "</DisplayName>\n"@ + "    <PublisherDisplayName>"@ + c.publisher_display_name@ + "</PublisherDisplayName>\n"@
        + "  </Properties>\n"@ + "  <Dependencies>\n"@ + "    <TargetDeviceFamily Name=\"Windows.Desktop\" MinVersion=\""@
        + c.min_version@ + "\" MaxVersionTested=\""@ + c.max_version_tested@ + "\" />\n"@ + "  </Dependencies>\n"@
        + "  <Capabilities>\n"@ + capability_lines(c.capabilities@) + "  </Capabilities>\n"@ + "</Package>\n"@
}

/// `a` followed by `b`, as a new string.
fn concat(a: &str, b: &str) -> (r: String)
    ensures
        r@ == a@ + b@,
{
    let mut s = String::new();
    append_str(&mut s, a);
    append_str(&mut s, b);
    assert(s@ =~= a@ + b@);
    s
}

/// Windows installer manager for MSI and MSIX packages.
pub struct InstallerManager {
    app_name: String,
    app_version: String,
    publisher: String,
}

impl InstallerManager {
    /// The application's name.
    pub closed spec fn name_view(&self) -> Seq<char> {
        self.app_name@
    }

    /// The application's version.
    pub closed spec fn version_view(&self) -> Seq<char> {
        self.app_version@
    }

    /// The publisher.
    pub closed spec fn publisher_view(&self) -> Seq<char> {
        self.publisher@
    }

    /// A manager for an application.
    pub fn new(app_name: String, app_version: String, publisher: String) -> (r: Self)
        ensures
            r.name_view() == app_name@,
            r.version_view() == app_version@,
            r.publisher_view() == publisher@,
    {
        Self { app_name, app_version, publisher }
    }

    /// The MSI configuration: the application's name, version and publisher,
    /// an upgrade code made from a hash of the name, an install directory
    /// under ProgramFiles, the main and documentation features, Start menu
    /// and desktop shortcuts, and the install path in the registry.
    pub fn create_msi_config(&self) -> (r: PlatformResult<MSIConfig>)
        ensures
            r matches Ok(c) && {
                &&& c.product_name@ == self.name_view()
                &&& c.product_version@ == self.version_view()
                &&& c.manufacturer@ == self.publisher_view()
                &&& exists|h: u64| c.upgrade_code@ == #[trigger] upgrade_code_text(h)
                &&& c.install_dir@ == "ProgramFiles\\"@ + self.name_view()
                &&& c.features@.len() == 2
                &&& c.features@[0].id@ == "MainApplication"@
                &&& c.features@[0].title@ == "Main Application"@
                &&& c.features@[0].description@ == "Core application files"@
                &&& c.features@[0].level == 1
                &&& c.features@[1].id@ == "Documentation"@
                &&& c.features@[1].title@ == "Documentation"@
                &&& c.features@[1].description@ == "User documentation and help files"@
                &&& c.features@[1].level == 2
                &&& c.shortcuts@.len() == 2
                &&& c.shortcuts@[0].name@ == self.name_view()
                &&& c.shortcuts@[0].target@ == "[INSTALLDIR]\\"@ + self.name_view() + ".exe"@
                &&& c.shortcuts@[0].location == ShortcutLocation::StartMenu
                &&& c.shortcuts@[1].name@ == self.name_view()
                &&& c.shortcuts@[1].target@ == "[INSTALLDIR]\\"@ + self.name_view() + ".exe"@
                &&& c.shortcuts@[1].location == ShortcutLocation::Desktop
                &&& c.registry_keys@.len() == 1
                &&& c.registry_keys@[0].root@ == "HKCU"@
                &&& c.registry_keys@[0].key@ == "Software\\"@ + self.name_view()
                &&& c.registry_keys@[0].name@ == "InstallPath"@
                &&& c.registry_keys@[0].value@ == "[INSTALLDIR]"@
            },
    {
        let upgrade_code = self.generate_upgrade_code();
        let install_dir = concat("ProgramFiles\\", self.app_name.as_str());
        let mut features: Vec<InstallerFeature> = Vec::new();
        features.push(
            InstallerFeature {
                id: String::from_str("MainApplication"),
                title: String::from_str("Main Application"),
                description: String::from_str("Core application files"),
                level: 1,
            },
        );
        features.push(
            InstallerFeature {
                id: String::from_str("Documentation"),
                title: String::from_str("Documentation"),
                description: String::from_str("User documentation and help files"),
                level: 2,
            },
        );
        let mut target = concat("[INSTALLDIR]\\", self.app_name.as_str());
        append_str(&mut target, ".exe");
        let mut shortcuts: Vec<Shortcut> = Vec::new();
        shortcuts.push(Shortcut { name: self.app_name.clone(), target: target.clone(), location: ShortcutLocation::StartMenu });
        shortcuts.push(Shortcut { name: self.app_name.clone(), target, location: ShortcutLocation::Desktop });
        let mut registry_keys: Vec<RegistryKey> = Vec::new();
        registry_keys.push(
            RegistryKey {
                root: String::from_str("HKCU"),
                key: concat("Software\\", self.app_name.as_str()),
                name: String::from_str("InstallPath"),
                value: String::from_str("[INSTALLDIR]"),
            },
        );
        Ok(MSIConfig {
            product_name: self.app_name.clone(),
            product_version: self.app_version.clone(),
            manufacturer: self.publisher.clone(),
            upgrade_code,
            install_dir,
            features,
            shortcuts,
            registry_keys,
        })
    }

    /// The MSIX configuration: the application's name, version and publisher,
    /// the identity `com.<publisher>.<name>` in lowercase, network
    /// capabilities, desktop and universal device families, and the version range.
    pub fn create_msix_config(&self) -> (r: PlatformResult<MSIXConfig>)
        ensures
            r matches Ok(c) && {
                &&& c.package_name@ == self.name_view()
                &&& c.package_version@ == self.version_view()
                &&& c.publisher@ == self.publisher_view()
                &&& c.publisher_display_name@ == self.publisher_view()
                &&& c.identity_name@ == "com."@ + unicode_lowercase(self.publisher_view()) + "."@
                    + unicode_lowercase(self.name_view())
                &&& c.capabilities@.len() == 2
                &&& c.capabilities@[0]@ == "internetClient"@
                &&& c.capabilities@[1]@ == "privateNetworkClientServer"@
                &&& c.target_device_families@.len() == 2
                &&& c.target_device_families@[0]@ == "Windows.Desktop"@
                &&& c.target_device_families@[1]@ == "Windows.Universal"@
                &&& c.min_version@ == "10.0.17763.0"@
                &&& c.max_version_tested@ == "10.0.22621.0"@
            },
    {
        let publisher_lower = to_lowercase(self.publisher.as_str());
        let name_lower = to_lowercase(self.app_name.as_str());
        let mut identity_name = String::new();
        append_str(&mut identity_name, "com.");
        append_string(&mut identity_name, &publisher_lower);
        append_str(&mut identity_name, ".");
        append_string(&mut identity_name, &name_lower);
        let mut capabilities: Vec<String> = Vec::new();
        capabilities.push(String::from_str("internetClient"));
        capabilities.push(String::from_str("privateNetworkClientServer"));
        let mut target_device_families: Vec<String> = Vec::new();
        target_device_families.push(String::from_str("Windows.Desktop"));
        target_device_families.push(String::from_str("Windows.Universal"));
        Ok(MSIXConfig {
            package_name: self.app_name.clone(),
            package_version: self.app_version.clone(),
            publisher: self.publisher.clone(),
            publisher_display_name: self.publisher.clone(),
            identity_name,
            capabilities,
            target_device_families,
            min_version: String::from_str("10.0.17763.0"),
            max_version_tested: String::from_str("10.0.22621.0"),
        })
    }

    /// The WiX source for an MSI configuration.
    pub fn generate_wix_xml(&self, config: &MSIConfig) -> (r: PlatformResult<String>)
        ensures
            r matches Ok(x) && x@ == wix_xml(*config),
    {
        let mut xml = String::new();
        append_str(&mut xml, "<?xml version=\"1.0\" encoding=\"UTF-8\"?>\n");
        append_str(&mut xml, "<Wix xmlns=\"http://schemas.microsoft.com/wix/2006/wi\">\n");
        append_str(&mut xml, "  <Product Id=\"*\" Name=\"");
        append_string(&mut xml, &config.product_name);
        append_str(&mut xml, "\" Language=\"1033\" Version=\"");
        append_string(&mut xml, &config.product_version);
        append_str(&mut xml, "\" Manufacturer=\"");
        append_string(&mut xml, &config.manufacturer);
        append_str(&mut xml, "\" UpgradeCode=\"");
        append_string(&mut xml, &config.upgrade_code);
        append_str(&mut xml, "\">\n");
        append_str(&mut xml, "    <Package InstallerVersion=\"200\" Compressed=\"yes\" InstallScope=\"perMachine\" />\n");
        append_str(&mut xml, "    <MajorUpgrade DowngradeErrorMessage=\"A newer version is already installed.\" />\n");
        append_str(&mut xml, "    <MediaTemplate EmbedCab=\"yes\" />\n");
        let ghost head = xml@;
        let mut i: usize = 0;
        while i < config.features.len()
            invariant
                i <= config.features@.len(),
                xml@ == head + wix_features(config.features@.take(i as int)),
            decreases config.features@.len() - i,
        {
            let f = &config.features[i];
            proof {
                assert(config.features@.take(i as int + 1).drop_last() =~= config.features@.take(i as int));
            }
            append_str(&mut xml, "    <Feature Id=\"");
            append_string(&mut xml, &f.id);
            append_str(&mut xml, "\" Title=\"");
            append_string(&mut xml, &f.title);
            append_str(&mut xml, "\" Level=\"");
            let level = u64_to_decimal(f.level as u64);
            append_string(&mut xml, &level);
            append_str(&mut xml, "\">\n");
            append_str(&mut xml, "      <ComponentGroupRef Id=\"");
            append_string(&mut xml, &f.id);
            append_str(&mut xml, "Components\" />\n");
            append_str(&mut xml, "    </Feature>\n");
            i = i + 1;
            proof {
                assert(xml@ =~= head + wix_features(config.features@.take(i as int)));
            }
        }
        assert(config.features@.take(config.features@.len() as int) =~= config.features@);
        append_str(&mut xml, "  </Product>\n");
        append_str(&mut xml, "</Wix>\n");
        assert(xml@ =~= wix_xml(*config));
        Ok(xml)
    }

    /// The AppxManifest.xml for an MSIX configuration.
    pub fn generate_appx_manifest(&self, config: &MSIXConfig) -> (r: PlatformResult<String>)
        ensures
            r matches Ok(x) && x@ == appx_manifest(*config),
    {
        let mut xml = String::new();
        append_str(&mut xml, "<?xml version=\"1.0\" encoding=\"utf-8\"?>\n");
        append_str(&mut xml, "<Package xmlns=\"http://schemas.microsoft.com/appx/manifest/foundation/windows10\"\n");
        append_str(&mut xml, "         xmlns:uap=\"http://schemas.microsoft.com/appx/manifest/uap/windows10\">\n");
        append_str(&mut xml, "  <Identity Name=\"");
        append_string(&mut xml, &config.identity_name);
        append_str(&mut xml, "\" Publisher=\"");
        append_string(&mut xml, &config.publisher);
        append_str(&mut xml, "\" Version=\"");
        append_string(&mut xml, &config.package_version);
        append_str(&mut xml, "\" />\n");
        append_str(&mut xml, "  <Properties>\n");
        append_str(&mut xml, "    <DisplayName>");
        append_string(&mut xml, &config.package_name);
        append_str(&mut xml, "</DisplayName>\n");
        append_str(&mut xml, "    <PublisherDisplayName>");
        append_string(&mut xml, &config.publisher_display_name);
        append_str(&mut xml, "</PublisherDisplayName>\n");
        append_str(&mut xml, "  </Properties>\n");
        append_str(&mut xml, "  <Dependencies>\n");
        append_str(&mut xml, "    <TargetDeviceFamily Name=\"Windows.Desktop\" MinVersion=\"");
        append_string(&mut xml, &config.min_version);
        append_str(&mut xml, "\" MaxVersionTested=\"");
        append_string(&mut xml, &config.max_version_tested);
        append_str(&mut xml, "\" />\n");
        append_str(&mut xml, "  </Dependencies>\n");
        append_str(&mut xml, "  <Capabilities>\n");
        let ghost head = xml@;
        let mut i: usize = 0;
        while i < config.capabilities.len()
            invariant
                i <= config.capabilities@.len(),
                xml@ == head + capability_lines(config.capabilities@.take(i as int)),
            decreases config.capabilities@.len() - i,
        {
            proof {
                assert(config.capabilities@.take(i as int + 1).drop_last() =~= config.capabilities@.take(i as int));
            }
            append_str(&mut xml, "    <Capability Name=\"");
            append_string(&mut xml, &config.capabilities[i]);
            append_str(&mut xml, "\" />\n");
            i = i + 1;
            proof {
                assert(xml@ =~= head + capability_lines(config.capabilities@.take(i as int)));
            }
        }
        assert(config.capabilities@.take(config.capabilities@.len() as int) =~= config.capabilities@);
        append_str(&mut xml, "  </Capabilities>\n");
        append_str(&mut xml, "</Package>\n");
        assert(xml@ =~= appx_manifest(*config));
        Ok(xml)
    }

    /// The upgrade code: the GUID text of a hash of the application's name.
    fn generate_upgrade_code(&self) -> (r: String)
        ensures
            exists|h: u64| r@ == #[trigger] upgrade_code_text(h),
    {
        let hash = default_hash(&self.app_name);
        format_upgrade_code(hash)
    }
}

} // verus!
