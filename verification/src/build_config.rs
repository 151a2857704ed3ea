//! The configuration of the image build, and the files that are written from
//! it: the kickstart file and the Packer template.

use crate::encoding;
use crate::encoding::debug_quoted;
use crate::text;
use crate::text::{
    all_white_space, concatenated, decimal, first_position, has_text, is_white_space,
    lemma_concatenated_has_part, lemma_concatenated_has_three, lemma_concatenated_push,
    lemma_first_position_is, lemma_has_part, lemma_has_tail, lemma_middle_is_determined,
    lines_of_both, number, number_error_text, number_reads_decimal, text_lines, trimmed,
    trimmed_white_space, trimming_undoes_padding,
};
use vstd::prelude::*;

verus! {

/// Where the configuration is read from. It holds nothing secret.
pub const BUILD_CONFIG_FILE: &'static str = "/etc/xcp-orchestrator/build.config";

/// Where the image is written to.
pub const OUTPUT_DIR: &'static str = "/var/lib/xcp-hl-orchestrator/output/xoa-hl";

/// The release of AlmaLinux in the image.
pub const ALMALINUX_VERSION: &'static str = "9";

/// Where AlmaLinux is installed from, unless the configuration says otherwise.
pub const ALMALINUX_ISO_URL: &'static str =
    "https://repo.almalinux.org/almalinux/9/isos/x86_64/AlmaLinux-9-latest-x86_64-minimal.iso";

/// The guest tools, unless the configuration says otherwise.
pub const XE_GUEST_UTILITIES_URL: &'static str =
    "https://github.com/xenserver/xe-guest-utilities/releases/download/v10.0.0/xe-guest-utilities-10.0.0-1.x86_64.rpm";

/// The guest tools for xenstore, unless the configuration says otherwise.
pub const XE_GUEST_UTILITIES_XENSTORE_URL: &'static str =
    "https://github.com/xenserver/xe-guest-utilities/releases/download/v10.0.0/xe-guest-utilities-xenstore-10.0.0-1.x86_64.rpm";

/// What the image is built from, and where.
#[derive(Debug)]
pub struct BuildConfig {
    pub xcpng_ip: String,
    pub xcpng_user: String,
    pub xcpng_password: String,
    pub sr_name: String,
    pub vm_network_name: String,
    pub vm_name: String,
    pub vm_disk_size_mb: u32,
    pub vm_memory_mb: u32,
    pub almalinux_root_password: String,
    pub almalinux_iso_url: String,
    pub almalinux_iso_checksum: String,
    pub xoa_hl_rpm_url: String,
    pub xe_guest_utilities_url: String,
    pub xe_guest_utilities_xenstore_url: String,
}

/// What a [`BuildConfig`] holds.
pub struct BuildConfigView {
    pub xcpng_ip: Seq<char>,
    pub xcpng_user: Seq<char>,
    pub xcpng_password: Seq<char>,
    pub sr_name: Seq<char>,
    pub vm_network_name: Seq<char>,
    pub vm_name: Seq<char>,
    pub vm_disk_size_mb: u32,
    pub vm_memory_mb: u32,
    pub almalinux_root_password: Seq<char>,
    pub almalinux_iso_url: Seq<char>,
    pub almalinux_iso_checksum: Seq<char>,
    pub xoa_hl_rpm_url: Seq<char>,
    pub xe_guest_utilities_url: Seq<char>,
    pub xe_guest_utilities_xenstore_url: Seq<char>,
}

impl View for BuildConfig {
    type V = BuildConfigView;

    open spec fn view(&self) -> BuildConfigView {
        BuildConfigView {
            xcpng_ip: self.xcpng_ip@,
            xcpng_user: self.xcpng_user@,
            xcpng_password: self.xcpng_password@,
            sr_name: self.sr_name@,
            vm_network_name: self.vm_network_name@,
            vm_name: self.vm_name@,
            vm_disk_size_mb: self.vm_disk_size_mb,
            vm_memory_mb: self.vm_memory_mb,
            almalinux_root_password: self.almalinux_root_password@,
            almalinux_iso_url: self.almalinux_iso_url@,
            almalinux_iso_checksum: self.almalinux_iso_checksum@,
            xoa_hl_rpm_url: self.xoa_hl_rpm_url@,
            xe_guest_utilities_url: self.xe_guest_utilities_url@,
            xe_guest_utilities_xenstore_url: self.xe_guest_utilities_xenstore_url@,
        }
    }
}

impl DeepView for BuildConfig {
    type V = BuildConfigView;

    open spec fn deep_view(&self) -> BuildConfigView {
        self@
    }
}

impl Clone for BuildConfig {
    fn clone(&self) -> (copy: Self)
        ensures
            copy@ == self@,
    {
        BuildConfig {
            xcpng_ip: self.xcpng_ip.clone(),
            xcpng_user: self.xcpng_user.clone(),
            xcpng_password: self.xcpng_password.clone(),
            sr_name: self.sr_name.clone(),
            vm_network_name: self.vm_network_name.clone(),
            vm_name: self.vm_name.clone(),
            vm_disk_size_mb: self.vm_disk_size_mb,
            vm_memory_mb: self.vm_memory_mb,
            almalinux_root_password: self.almalinux_root_password.clone(),
            almalinux_iso_url: self.almalinux_iso_url.clone(),
            almalinux_iso_checksum: self.almalinux_iso_checksum.clone(),
            xoa_hl_rpm_url: self.xoa_hl_rpm_url.clone(),
            xe_guest_utilities_url: self.xe_guest_utilities_url.clone(),
            xe_guest_utilities_xenstore_url: self.xe_guest_utilities_xenstore_url.clone(),
        }
    }
}

impl BuildConfigView {
    /// The configuration that holds where nothing else is said.
    pub open spec fn baked_in() -> BuildConfigView {
        BuildConfigView {
            xcpng_ip: "192.168.1.10"@,
            xcpng_user: "root"@,
            xcpng_password: Seq::empty(),
            sr_name: "Local storage"@,
            vm_network_name: "Pool-wide network associated with eth0"@,
            vm_name: "xoa-almalinux"@,
            vm_disk_size_mb: 10000,
            vm_memory_mb: 2048,
            almalinux_root_password: Seq::empty(),
            almalinux_iso_url: ALMALINUX_ISO_URL@,
            almalinux_iso_checksum: Seq::empty(),
            xoa_hl_rpm_url: Seq::empty(),
            xe_guest_utilities_url: XE_GUEST_UTILITIES_URL@,
            xe_guest_utilities_xenstore_url: XE_GUEST_UTILITIES_XENSTORE_URL@,
        }
    }
}

impl Default for BuildConfig {
    fn default() -> (config: Self)
        ensures
            config@ == BuildConfigView::baked_in(),
    {
        BuildConfig {
            xcpng_ip: "192.168.1.10".to_string(),
            xcpng_user: "root".to_string(),
            xcpng_password: String::new(),
            sr_name: "Local storage".to_string(),
            vm_network_name: "Pool-wide network associated with eth0".to_string(),
            vm_name: "xoa-almalinux".to_string(),
            vm_disk_size_mb: 10000,
            vm_memory_mb: 2048,
            almalinux_root_password: String::new(),
            almalinux_iso_url: ALMALINUX_ISO_URL.to_string(),
            almalinux_iso_checksum: String::new(),
            xoa_hl_rpm_url: String::new(),
            xe_guest_utilities_url: XE_GUEST_UTILITIES_URL.to_string(),
            xe_guest_utilities_xenstore_url: XE_GUEST_UTILITIES_XENSTORE_URL.to_string(),
        }
    }
}

/// Why there is no configuration: what failed, and what caused it, step by step.
#[derive(Debug)]
pub struct ConfigError {
    pub message: String,
    pub causes: Vec<String>,
}

/// What a [`ConfigError`] says.
pub struct ConfigErrorView {
    pub message: Seq<char>,
    pub causes: Seq<Seq<char>>,
}

impl View for ConfigError {
    type V = ConfigErrorView;

    open spec fn view(&self) -> ConfigErrorView {
        ConfigErrorView { message: self.message@, causes: self.causes.deep_view() }
    }
}

impl ConfigErrorView {
    /// Something failed because of this.
    pub open spec fn within(self, message: Seq<char>) -> ConfigErrorView {
        ConfigErrorView { message, causes: seq![self.message] + self.causes }
    }
}

impl ConfigError {
    /// Something failed because of this.
    fn within(self, message: String) -> (e: ConfigError)
        ensures
            e@ == self@.within(message@),
    {
        let mut causes = self.causes;
        causes.insert(0, self.message);
        assert(causes.deep_view() =~= seq![self.message@] + self.causes.deep_view());
        ConfigError { message, causes }
    }
}

/// What is wrong, with nothing known to have caused it.
pub open spec fn plain_error(message: Seq<char>) -> ConfigErrorView {
    ConfigErrorView { message, causes: Seq::empty() }
}

fn error_of(message: String) -> (e: ConfigError)
    ensures
        e@ == plain_error(message@),
{
    let e = ConfigError { message, causes: Vec::new() };
    assert(e.causes.deep_view() =~= Seq::<Seq<char>>::empty());
    e
}

// ── Reading the file ───────────────────────────────────────────────────────

/// A value without the quotes around it: double ones, or else single ones.
pub open spec fn unquoted(value: Seq<char>) -> Seq<char> {
    if value.len() >= 2 && value[0] == '"' && value.last() == '"' {
        value.subrange(1, value.len() - 1)
    } else if value.len() >= 2 && value[0] == '\'' && value.last() == '\'' {
        value.subrange(1, value.len() - 1)
    } else {
        value
    }
}

/// What a line of the file says.
pub enum LineView {
    /// Nothing: it is blank, or a comment.
    Nothing,
    Entry(Seq<char>, Seq<char>),
    Malformed,
}

/// What a line of the file says.
pub open spec fn line_of(raw: Seq<char>) -> LineView {
    let line = trimmed(raw);
    let at = first_position(line, '=') as int;
    if line.len() == 0 || line[0] == '#' {
        LineView::Nothing
    } else if at >= line.len() {
        LineView::Malformed
    } else {
        LineView::Entry(trimmed(line.take(at)), unquoted(trimmed(line.skip(at + 1))))
    }
}

/// The configuration with one key set; `None` if the value has to be a number
/// and is none. A key that is not known changes nothing.
pub open spec fn with_entry(
    config: BuildConfigView,
    key: Seq<char>,
    value: Seq<char>,
) -> Option<BuildConfigView> {
    let megabytes = number(value, u32::MAX as nat);
    if key == "XCPNG_IP"@ {
        Some(BuildConfigView { xcpng_ip: value, ..config })
    } else if key == "XCPNG_USER"@ {
        Some(BuildConfigView { xcpng_user: value, ..config })
    } else if key == "SR_NAME"@ {
        Some(BuildConfigView { sr_name: value, ..config })
    } else if key == "VM_NETWORK_NAME"@ {
        Some(BuildConfigView { vm_network_name: value, ..config })
    } else if key == "VM_NAME"@ {
        Some(BuildConfigView { vm_name: value, ..config })
    } else if key == "VM_DISK_SIZE_MB"@ {
        match megabytes {
            Some(n) => Some(BuildConfigView { vm_disk_size_mb: n as u32, ..config }),
            None => None,
        }
    } else if key == "VM_MEMORY_MB"@ {
        match megabytes {
            Some(n) => Some(BuildConfigView { vm_memory_mb: n as u32, ..config }),
            None => None,
        }
    } else if key == "ALMALINUX_ISO_URL"@ {
        Some(BuildConfigView { almalinux_iso_url: value, ..config })
    } else if key == "XE_GUEST_UTILITIES_URL"@ {
        Some(BuildConfigView { xe_guest_utilities_url: value, ..config })
    } else if key == "XE_GUEST_UTILITIES_XENSTORE_URL"@ {
        Some(BuildConfigView { xe_guest_utilities_xenstore_url: value, ..config })
    } else {
        Some(config)
    }
}

/// What is wrong with a line that sets nothing.
pub open spec fn malformed_line(lineno: int, raw: Seq<char>) -> ConfigErrorView {
    plain_error(
        "line "@ + decimal(lineno as nat) + ": expected KEY=VALUE, got "@ + debug_quoted(raw),
    )
}

/// What is wrong with a value that has to be a number, and why it is none.
pub open spec fn not_a_number(lineno: int, key: Seq<char>, value: Seq<char>) -> ConfigErrorView {
    plain_error(number_error_text(value)).within(
        "line "@ + decimal(lineno as nat) + ": "@ + key + " must be a number, got "@
            + debug_quoted(value),
    )
}

/// The configuration after one line with a number, or what is wrong with the
/// line.
pub open spec fn with_line(config: BuildConfigView, lineno: int, raw: Seq<char>) -> Result<
    BuildConfigView,
    ConfigErrorView,
> {
    match line_of(raw) {
        LineView::Nothing => Ok(config),
        LineView::Malformed => Err(malformed_line(lineno, raw)),
        LineView::Entry(key, value) => match with_entry(config, key, value) {
            Some(next) => Ok(next),
            None => Err(not_a_number(lineno, key, value)),
        },
    }
}

/// The configuration after the first `n` lines, as far as they are right: the
/// lines after a wrong one do not count. With it, what is wrong.
pub open spec fn with_lines(config: BuildConfigView, lines: Seq<Seq<char>>, n: int) -> (
    BuildConfigView,
    Result<(), ConfigErrorView>,
)
    decreases n,
{
    if n <= 0 {
        (config, Ok(()))
    } else {
        let (before, sofar) = with_lines(config, lines, n - 1);
        match sofar {
            Err(e) => (before, Err(e)),
            Ok(()) => match with_line(before, n, lines[n - 1]) {
                Ok(next) => (next, Ok(())),
                Err(e) => (before, Err(e)),
            },
        }
    }
}

/// The configuration after a whole file, and what is wrong with the file.
pub open spec fn with_file(config: BuildConfigView, content: Seq<char>) -> (
    BuildConfigView,
    Result<(), ConfigErrorView>,
) {
    with_lines(config, text_lines(content), text_lines(content).len() as int)
}

fn unquote(value: &str) -> (inner: String)
    ensures
        inner@ == unquoted(value@),
{
    let cs = text::chars_of(value);
    let len = cs.len();
    if len >= 2 && ((cs[0] == '"' && cs[len - 1] == '"') || (cs[0] == '\'' && cs[len - 1] == '\''))
    {
        text::string_of(vstd::slice::slice_subrange(cs.as_slice(), 1, len - 1))
    } else {
        value.to_string()
    }
}

fn read_megabytes(lineno: usize, key: &str, value: &str) -> (r: Result<u32, ConfigError>)
    ensures
        match r {
            Ok(n) => number(value@, u32::MAX as nat) == Some(n as nat),
            Err(e) => number(value@, u32::MAX as nat) is None && e@ == not_a_number(
                lineno as int,
                key@,
                value@,
            ),
        },
{
    match text::read_u32(value) {
        Ok(n) => Ok(n),
        Err(m) => Err(
            error_of(m).within(
                "line ".to_string()
                    .concat(&text::decimal_of(lineno as u64))
                    .concat(": ")
                    .concat(key)
                    .concat(" must be a number, got ")
                    .concat(&encoding::debug_quote(value)),
            ),
        ),
    }
}

fn set_entry(config: &mut BuildConfig, lineno: usize, key: &str, value: &str) -> (r: Result<
    (),
    ConfigError,
>)
    ensures
        match with_entry(old(config)@, key@, value@) {
            Some(next) => r is Ok && final(config)@ == next,
            None => r is Err && r->Err_0@ == not_a_number(lineno as int, key@, value@)
                && final(config)@ == old(config)@,
        },
{
    if text::same(key, "XCPNG_IP") {
        config.xcpng_ip = value.to_string();
    } else if text::same(key, "XCPNG_USER") {
        config.xcpng_user = value.to_string();
    } else if text::same(key, "SR_NAME") {
        config.sr_name = value.to_string();
    } else if text::same(key, "VM_NETWORK_NAME") {
        config.vm_network_name = value.to_string();
    } else if text::same(key, "VM_NAME") {
        config.vm_name = value.to_string();
    } else if text::same(key, "VM_DISK_SIZE_MB") {
        match read_megabytes(lineno, key, value) {
            Ok(n) => {
                config.vm_disk_size_mb = n;
            },
            Err(e) => {
                return Err(e);
            },
        }
    } else if text::same(key, "VM_MEMORY_MB") {
        match read_megabytes(lineno, key, value) {
            Ok(n) => {
                config.vm_memory_mb = n;
            },
            Err(e) => {
                return Err(e);
            },
        }
    } else if text::same(key, "ALMALINUX_ISO_URL") {
        config.almalinux_iso_url = value.to_string();
    } else if text::same(key, "XE_GUEST_UTILITIES_URL") {
        config.xe_guest_utilities_url = value.to_string();
    } else if text::same(key, "XE_GUEST_UTILITIES_XENSTORE_URL") {
        config.xe_guest_utilities_xenstore_url = value.to_string();
    }
    Ok(())
}

fn apply_line(config: &mut BuildConfig, lineno: usize, raw: &str) -> (r: Result<
    (),
    ConfigError,
>)
    ensures
        match with_line(old(config)@, lineno as int, raw@) {
            Ok(next) => r is Ok && final(config)@ == next,
            Err(e) => r is Err && (r->Err_0)@ == e && final(config)@ == old(config)@,
        },
{
    let line = text::trim(raw);
    if line.as_str().is_empty() || text::starts_with(&line, "#") {
        proof {
            reveal_strlit("#");
            if line@.len() > 0 {
                assert(line@.subrange(0, 1)[0] == line@[0]);
            }
        }
        return Ok(());
    }
    proof {
        reveal_strlit("#");
        if line@[0] == '#' {
            assert(line@.subrange(0, 1) =~= "#"@);
        }
    }
    match text::split_once(&line, '=') {
        Some((key, value)) => {
            let key = text::trim(&key);
            let value = unquote(&text::trim(&value));
            set_entry(config, lineno, &key, &value)
        },
        None => Err(
            error_of(
                "line ".to_string()
                    .concat(&text::decimal_of(lineno as u64))
                    .concat(": expected KEY=VALUE, got ")
                    .concat(&encoding::debug_quote(raw)),
            ),
        ),
    }
}

/// Overlays shell-style `KEY="VALUE"` lines onto a configuration. Blank lines
/// and `#` comments are skipped, and quotes around a value are stripped, so that
/// a shell can read the file as well. Keys that are not known are ignored;
/// secrets are not accepted. A line that is wrong ends the reading: the lines
/// before it are applied.
pub fn apply_build_config(config: &mut BuildConfig, content: &str) -> (r: Result<
    (),
    ConfigError,
>)
    ensures
        final(config)@ == with_file(old(config)@, content@).0,
        match r {
            Ok(()) => with_file(old(config)@, content@).1 == Ok::<(), ConfigErrorView>(()),
            Err(e) => with_file(old(config)@, content@).1 == Err::<(), ConfigErrorView>(e@),
        },
{
    let lines = text::lines(content);
    let ghost all = lines.deep_view();
    let len = lines.len();
    let mut i: usize = 0;
    while i < len
        invariant
            len == lines@.len(),
            i <= len,
            all == lines.deep_view(),
            all == text_lines(content@),
            with_lines(old(config)@, all, i as int) == (config@, Ok::<(), ConfigErrorView>(())),
        decreases len - i,
    {
        assert(all[i as int] == lines@[i as int]@);
        match apply_line(config, i + 1, &lines[i]) {
            Ok(()) => {},
            Err(e) => {
                proof {
                    lemma_error_stays(old(config)@, all, i + 1, len as int);
                }
                return Err(e);
            },
        }
        i += 1;
    }
    Ok(())
}

/// What is wrong with a file is settled by its first wrong line.
proof fn lemma_error_stays(config: BuildConfigView, lines: Seq<Seq<char>>, n: int, m: int)
    requires
        0 <= n <= m,
        with_lines(config, lines, n).1 is Err,
    ensures
        with_lines(config, lines, m) == with_lines(config, lines, n),
    decreases m - n,
{
    if n < m {
        lemma_error_stays(config, lines, n, m - 1);
    }
}

/// What was found where the configuration is read from.
#[derive(Debug)]
pub enum ConfigSource {
    /// There is no file.
    Missing,
    /// The file could not be read.
    Unreadable { message: String },
    /// What the file holds.
    Content(String),
}

/// What a [`ConfigSource`] says.
pub enum ConfigSourceView {
    Missing,
    Unreadable { message: Seq<char> },
    Content(Seq<char>),
}

impl View for ConfigSource {
    type V = ConfigSourceView;

    open spec fn view(&self) -> ConfigSourceView {
        match self {
            ConfigSource::Missing => ConfigSourceView::Missing,
            ConfigSource::Unreadable { message } => ConfigSourceView::Unreadable {
                message: message@,
            },
            ConfigSource::Content(content) => ConfigSourceView::Content(content@),
        }
    }
}

/// The configuration from what was found: the baked-in one, overlaid with the
/// file. A file that is missing changes nothing; one that cannot be read, or
/// with something wrong in it, is an error.
pub open spec fn loaded_config(source: ConfigSourceView) -> Result<BuildConfigView, ConfigErrorView> {
    match source {
        ConfigSourceView::Missing => Ok(BuildConfigView::baked_in()),
        ConfigSourceView::Unreadable { message } => Err(
            plain_error(message).within("Failed to read "@ + BUILD_CONFIG_FILE@),
        ),
        ConfigSourceView::Content(content) => {
            let (config, problem) = with_file(BuildConfigView::baked_in(), content);
            match problem {
                Ok(()) => Ok(config),
                Err(e) => Err(e.within("Failed to parse "@ + BUILD_CONFIG_FILE@)),
            }
        },
    }
}

impl BuildConfig {
    /// The configuration from what was found. Half a configuration would be worse
    /// than none: it might point at the wrong machine.
    pub fn load(source: ConfigSource) -> (r: Result<BuildConfig, ConfigError>)
        ensures
            match r {
                Ok(config) => loaded_config(source@) == Ok::<BuildConfigView, ConfigErrorView>(
                    config@,
                ),
                Err(e) => loaded_config(source@) == Err::<BuildConfigView, ConfigErrorView>(e@),
            },
    {
        let mut config = BuildConfig::default();
        match source {
            ConfigSource::Missing => Ok(config),
            ConfigSource::Unreadable { message } => Err(
                error_of(message).within("Failed to read ".to_string().concat(BUILD_CONFIG_FILE)),
            ),
            ConfigSource::Content(content) => match apply_build_config(&mut config, &content) {
                Ok(()) => Ok(config),
                Err(e) => Err(e.within("Failed to parse ".to_string().concat(BUILD_CONFIG_FILE))),
            },
        }
    }
}

// ── Files for the build ────────────────────────────────────────────────────

/// The kickstart file between the release and the password.
pub const KICKSTART_SETUP: &'static str = r#" Minimal Kickstart — XOA HomeLab Edition
lang en_US.UTF-8
keyboard us
network --onboot yes --device eth0 --bootproto dhcp
rootpw --plaintext "#;

/// The kickstart file after the password.
pub const KICKSTART_REST: &'static str = r#"
timezone Asia/Tokyo --utc
selinux --disabled
firewall --disabled
bootloader --location=mbr --boot-drive=xvda
zerombr
clearpart --all --initlabel
part /boot --fstype="ext4" --size=1024
part / --fstype="ext4" --size=1 --grow
reboot

%packages --excludedocs --exclude-weakdeps
@^minimal-environment
@core
chrony
openssh-server
openssh-clients
curl
tar
net-tools
iproute
-linux-firmware
-*-firmware
-lvm2
-dracut-config-rescue
-tuned
-microcode_ctl
-plymouth*
%end

%post --log=/root/ks-post.log
sed -i 's/^SELINUX=.*/SELINUX=disabled/' /etc/selinux/config
systemctl disable network 2>/dev/null || true
systemctl enable NetworkManager --now
systemctl enable sshd --now
sed -i 's/^#PermitRootLogin.*/PermitRootLogin yes/' /etc/ssh/sshd_config
sed -i 's/^PasswordAuthentication.*/PasswordAuthentication yes/' /etc/ssh/sshd_config
systemctl restart sshd
systemctl enable chronyd --now
echo "tsflags=nodocs" >> /etc/dnf/dnf.conf
echo "install_weak_deps=False" >> /etc/dnf/dnf.conf
dnf install -y epel-release
dnf install -y wget nc vim
groupadd -f xo
useradd -m -g xo -s /bin/bash xo
usermod -aG wheel xo
%end
"#;

/// The kickstart file: how the system in the image is installed.
pub open spec fn kickstart_of(config: BuildConfigView) -> Seq<char> {
    "# AlmaLinux "@ + ALMALINUX_VERSION@ + KICKSTART_SETUP@ + config.almalinux_root_password
        + KICKSTART_REST@
}

/// The kickstart file: how the system in the image is installed.
pub fn generate_kickstart(config: &BuildConfig) -> (file: String)
    ensures
        file@ == kickstart_of(config@),
{
    "# AlmaLinux ".to_string()
        .concat(ALMALINUX_VERSION)
        .concat(KICKSTART_SETUP)
        .concat(&config.almalinux_root_password)
        .concat(KICKSTART_REST)
}

/// The start of the template.
pub const PACKER_START: &'static str = r#"{
  "builders": [{
    "type": "xenserver-iso",
"#;

/// How the installer is booted.
pub const PACKER_BOOT: &'static str = r#"    "boot_command": [
      "<wait5><esc><wait>",
      "linux inst.ks=http://{{ .HTTPIP }}:{{ .HTTPPort }}/inst.ks inst.text<enter>"
    ],
    "boot_wait": "5s",
    "ssh_username": "root",
"#;

/// In which format the image is written, and where to.
pub const PACKER_FORMAT: &'static str = r#"    "ssh_timeout": "30m",
    "format": "xva_compressed",
    "keep_vm": "always",
    "skip_set_template": "true",
    "output_directory": ""#;

/// The first steps in the installed system, up to the guest tools for xenstore.
pub const PACKER_PROVISIONERS: &'static str = r#""
  }],
  "provisioners": [
    {"type":"shell","inline":["dnf update -y"]},
    {"type":"shell","inline":[
      "wget -q "#;

/// Between the two packages of guest tools.
pub const PACKER_GUEST_TOOLS: &'static str = r#" -O /tmp/xe-guest-utilities-xenstore.rpm",
      "wget -q "#;

/// After the guest tools, up to the package of the appliance.
pub const PACKER_NODE: &'static str = r#" -O /tmp/xe-guest-utilities.rpm",
      "dnf install -y /tmp/xe-guest-utilities-xenstore.rpm /tmp/xe-guest-utilities.rpm",
      "rm -f /tmp/xe-guest-utilities*.rpm"
    ]},
    {"type":"shell","inline":[
      "curl -fsSL https://rpm.nodesource.com/setup_24.x | bash -",
      "dnf install -y nodejs"
    ]},
    {"type":"shell","inline":[
      "curl -fsSL '"#;

/// The rest of the template.
pub const PACKER_REST: &'static str = r#"' -o /tmp/xoa-hl.rpm",
      "dnf install -y /tmp/xoa-hl.rpm",
      "rm -f /tmp/xoa-hl.rpm"
    ]},
    {"type":"file","source":"scripts/xoa-first-boot.sh","destination":"/root/xoa-first-boot.sh"},
    {"type":"file","source":"scripts/xoa-credentials.sh","destination":"/root/xoa-credentials.sh"},
    {"type":"file","source":"systemd/xoa-first-boot.service","destination":"/etc/systemd/system/xoa-first-boot.service"},
    {"type":"file","source":"systemd/xoa-credentials.service","destination":"/etc/systemd/system/xoa-credentials.service"},
    {"type":"shell","inline":[
      "chmod +x /root/xoa-first-boot.sh /root/xoa-credentials.sh",
      "systemctl daemon-reload",
      "systemctl enable xoa-first-boot.service xoa-credentials.service"
    ]},
    {"type":"shell","inline":[
      "dnf remove -y firewalld firewalld-filesystem python3-firewall selinux-policy selinux-policy-targeted policycoreutils",
      "dnf remove -y $(dnf repoquery --installonly --latest-limit=-1 -q) || true",
      "dnf remove -y linux-firmware lvm2 2>/dev/null || true",
      "dnf autoremove -y",
      "dnf clean all",
      "rm -rf /var/cache/dnf/ /var/log/*.log /var/log/journal/* /var/lib/dnf/history* /usr/share/doc/* /usr/share/man/* /usr/share/info/* /usr/share/licenses/*",
      "rm -f /boot/*rescue*",
      "echo -n > /etc/machine-id",
      "dd if=/dev/zero of=/ZERO bs=1M status=none || true; rm -f /ZERO; dd if=/dev/zero of=/boot/ZERO bs=1M status=none || true; rm -f /boot/ZERO; sync"
    ]}
  ]
}"#;

/// A line of the template that sets a text.
pub open spec fn text_field(key: Seq<char>, value: Seq<char>) -> Seq<char> {
    "    \""@ + key + "\": \""@ + value + "\",\n"@
}

/// A line of the template that sets a number.
pub open spec fn number_field(key: Seq<char>, value: u32) -> Seq<char> {
    "    \""@ + key + "\": "@ + decimal(value as nat) + ",\n"@
}

/// The Packer template: how the image is built.
pub open spec fn packer_template_of(config: BuildConfigView) -> Seq<char> {
    PACKER_START@ + text_field("remote_host"@, config.xcpng_ip)
        + text_field("remote_username"@, config.xcpng_user)
        + text_field("remote_password"@, config.xcpng_password)
        + text_field("iso_url"@, config.almalinux_iso_url)
        + text_field("iso_checksum"@, config.almalinux_iso_checksum)
        + text_field("sr_name"@, config.sr_name)
        + text_field("vm_name"@, config.vm_name)
        + text_field("vm_description"@, "XOA HomeLab Edition — AlmaLinux "@ + ALMALINUX_VERSION@)
        + number_field("disk_size"@, config.vm_disk_size_mb)
        + number_field("vm_memory"@, config.vm_memory_mb)
        + text_field("http_directory"@, "."@)
        + "    \"network_names\": [\""@ + config.vm_network_name + "\"],\n"@
        + PACKER_BOOT@
        + text_field("ssh_password"@, config.almalinux_root_password)
        + PACKER_FORMAT@ + OUTPUT_DIR@
        + PACKER_PROVISIONERS@ + config.xe_guest_utilities_xenstore_url
        + PACKER_GUEST_TOOLS@ + config.xe_guest_utilities_url
        + PACKER_NODE@ + config.xoa_hl_rpm_url
        + PACKER_REST@
}

fn write_text_field(key: &str, value: &str) -> (line: String)
    ensures
        line@ == text_field(key@, value@),
{
    "    \"".to_string().concat(key).concat("\": \"").concat(value).concat("\",\n")
}

fn write_number_field(key: &str, value: u32) -> (line: String)
    ensures
        line@ == number_field(key@, value),
{
    "    \"".to_string().concat(key).concat("\": ").concat(
        &text::decimal_of(value as u64),
    ).concat(",\n")
}

/// The Packer template: how the image is built.
pub fn generate_packer_template(config: &BuildConfig) -> (file: String)
    ensures
        file@ == packer_template_of(config@),
{
    let description = "XOA HomeLab Edition — AlmaLinux ".to_string().concat(ALMALINUX_VERSION);
    PACKER_START.to_string()
        .concat(&write_text_field("remote_host", &config.xcpng_ip))
        .concat(&write_text_field("remote_username", &config.xcpng_user))
        .concat(&write_text_field("remote_password", &config.xcpng_password))
        .concat(&write_text_field("iso_url", &config.almalinux_iso_url))
        .concat(&write_text_field("iso_checksum", &config.almalinux_iso_checksum))
        .concat(&write_text_field("sr_name", &config.sr_name))
        .concat(&write_text_field("vm_name", &config.vm_name))
        .concat(&write_text_field("vm_description", &description))
        .concat(&write_number_field("disk_size", config.vm_disk_size_mb))
        .concat(&write_number_field("vm_memory", config.vm_memory_mb))
        .concat(&write_text_field("http_directory", "."))
        .concat("    \"network_names\": [\"")
        .concat(&config.vm_network_name)
        .concat("\"],\n")
        .concat(PACKER_BOOT)
        .concat(&write_text_field("ssh_password", &config.almalinux_root_password))
        .concat(PACKER_FORMAT)
        .concat(OUTPUT_DIR)
        .concat(PACKER_PROVISIONERS)
        .concat(&config.xe_guest_utilities_xenstore_url)
        .concat(PACKER_GUEST_TOOLS)
        .concat(&config.xe_guest_utilities_url)
        .concat(PACKER_NODE)
        .concat(&config.xoa_hl_rpm_url)
        .concat(PACKER_REST)
}

// ── Laws ───────────────────────────────────────────────────────────────────

/// What two configurations hold outside the reach of the file: the secrets, and
/// what is looked up for each build.
pub open spec fn same_beyond_file(a: BuildConfigView, b: BuildConfigView) -> bool {
    &&& a.xcpng_password == b.xcpng_password
    &&& a.almalinux_root_password == b.almalinux_root_password
    &&& a.almalinux_iso_checksum == b.almalinux_iso_checksum
    &&& a.xoa_hl_rpm_url == b.xoa_hl_rpm_url
}

/// No file sets a secret or what is looked up for each build.
pub proof fn file_sets_no_secret(config: BuildConfigView, content: Seq<char>)
    ensures
        same_beyond_file(with_file(config, content).0, config),
{
    lemma_lines_set_no_secret(config, text_lines(content), text_lines(content).len() as int);
}

proof fn lemma_lines_set_no_secret(config: BuildConfigView, lines: Seq<Seq<char>>, n: int)
    ensures
        same_beyond_file(with_lines(config, lines, n).0, config),
    decreases n,
{
    if n > 0 {
        lemma_lines_set_no_secret(config, lines, n - 1);
    }
}

/// A file of blank lines and comments changes nothing, and nothing is wrong with
/// it.
pub proof fn comments_change_nothing(config: BuildConfigView, content: Seq<char>)
    requires
        forall|i: int|
            0 <= i < text_lines(content).len() ==> line_of(#[trigger] text_lines(content)[i])
                is Nothing,
    ensures
        with_file(config, content) == (config, Ok::<(), ConfigErrorView>(())),
{
    lemma_blank_lines(config, text_lines(content), text_lines(content).len() as int);
}

proof fn lemma_blank_lines(config: BuildConfigView, lines: Seq<Seq<char>>, n: int)
    requires
        n <= lines.len(),
        forall|i: int| 0 <= i < lines.len() ==> line_of(#[trigger] lines[i]) is Nothing,
    ensures
        with_lines(config, lines, n) == (config, Ok::<(), ConfigErrorView>(())),
    decreases n,
{
    if n > 0 {
        lemma_blank_lines(config, lines, n - 1);
        assert(line_of(lines[n - 1]) is Nothing);
    }
}

/// What a key of the file stands for.
pub enum SettingView {
    Text(Seq<char>),
    Megabytes(u32),
    /// The file has no such key.
    Unknown,
}

/// What a configuration holds under a key of the file.
pub open spec fn setting(config: BuildConfigView, key: Seq<char>) -> SettingView {
    if key == "XCPNG_IP"@ {
        SettingView::Text(config.xcpng_ip)
    } else if key == "XCPNG_USER"@ {
        SettingView::Text(config.xcpng_user)
    } else if key == "SR_NAME"@ {
        SettingView::Text(config.sr_name)
    } else if key == "VM_NETWORK_NAME"@ {
        SettingView::Text(config.vm_network_name)
    } else if key == "VM_NAME"@ {
        SettingView::Text(config.vm_name)
    } else if key == "VM_DISK_SIZE_MB"@ {
        SettingView::Megabytes(config.vm_disk_size_mb)
    } else if key == "VM_MEMORY_MB"@ {
        SettingView::Megabytes(config.vm_memory_mb)
    } else if key == "ALMALINUX_ISO_URL"@ {
        SettingView::Text(config.almalinux_iso_url)
    } else if key == "XE_GUEST_UTILITIES_URL"@ {
        SettingView::Text(config.xe_guest_utilities_url)
    } else if key == "XE_GUEST_UTILITIES_XENSTORE_URL"@ {
        SettingView::Text(config.xe_guest_utilities_xenstore_url)
    } else {
        SettingView::Unknown
    }
}

/// A setting has the value that a line gives it.
pub open spec fn holds_value(held: SettingView, value: Seq<char>) -> bool {
    match held {
        SettingView::Text(text) => text == value,
        SettingView::Megabytes(n) => number(value, u32::MAX as nat) == Some(n as nat),
        SettingView::Unknown => true,
    }
}

/// A line sets a key.
pub open spec fn sets_key(raw: Seq<char>, key: Seq<char>) -> bool {
    match line_of(raw) {
        LineView::Entry(found, _) => found == key,
        _ => false,
    }
}

/// No line of a range sets a key.
pub open spec fn no_line_sets(lines: Seq<Seq<char>>, from: int, to: int, key: Seq<char>) -> bool {
    forall|i: int| from <= i < to ==> !sets_key(#[trigger] lines[i], key)
}

proof fn lemma_key_untouched(
    config: BuildConfigView,
    lines: Seq<Seq<char>>,
    from: int,
    to: int,
    key: Seq<char>,
)
    requires
        0 <= from <= to,
        no_line_sets(lines, from, to, key),
    ensures
        setting(with_lines(config, lines, to).0, key) == setting(
            with_lines(config, lines, from).0,
            key,
        ),
    decreases to,
{
    if from < to {
        lemma_key_untouched(config, lines, from, to - 1, key);
        assert(!sets_key(lines[to - 1], key));
    }
}

/// A key that no line of a file sets keeps its value.
pub proof fn unset_key_keeps_its_value(
    config: BuildConfigView,
    content: Seq<char>,
    key: Seq<char>,
)
    requires
        no_line_sets(text_lines(content), 0, text_lines(content).len() as int, key),
    ensures
        setting(with_file(config, content).0, key) == setting(config, key),
{
    let lines = text_lines(content);
    lemma_key_untouched(config, lines, 0, lines.len() as int, key);
}

/// A key has the value that the last line with it gives, if nothing is wrong with
/// the file.
pub proof fn last_line_of_a_key_counts(
    config: BuildConfigView,
    content: Seq<char>,
    at: int,
    key: Seq<char>,
    value: Seq<char>,
)
    requires
        0 <= at < text_lines(content).len(),
        line_of(text_lines(content)[at]) == LineView::Entry(key, value),
        no_line_sets(text_lines(content), at + 1, text_lines(content).len() as int, key),
        with_file(config, content).1 is Ok,
    ensures
        holds_value(setting(with_file(config, content).0, key), value),
{
    let lines = text_lines(content);
    let len = lines.len() as int;
    lemma_key_untouched(config, lines, at + 1, len, key);
    if with_lines(config, lines, at + 1).1 is Err {
        lemma_error_stays(config, lines, at + 1, len);
    }
}

/// Two values are the same, or each is as it was.
pub open spec fn same_or_kept<T>(x: T, y: T, old_x: T, old_y: T) -> bool {
    x == y || (x == old_x && y == old_y)
}

/// The same lines leave each setting of two configurations the same, or as it
/// was, and have the same thing wrong with them.
proof fn lemma_lines_set_or_keep(
    a: BuildConfigView,
    b: BuildConfigView,
    lines: Seq<Seq<char>>,
    n: int,
)
    ensures
        with_lines(a, lines, n).1 == with_lines(b, lines, n).1,
        ({
            let x = with_lines(a, lines, n).0;
            let y = with_lines(b, lines, n).0;
            &&& same_or_kept(x.xcpng_ip, y.xcpng_ip, a.xcpng_ip, b.xcpng_ip)
            &&& same_or_kept(x.xcpng_user, y.xcpng_user, a.xcpng_user, b.xcpng_user)
            &&& same_or_kept(x.sr_name, y.sr_name, a.sr_name, b.sr_name)
            &&& same_or_kept(
                x.vm_network_name,
                y.vm_network_name,
                a.vm_network_name,
                b.vm_network_name,
            )
            &&& same_or_kept(x.vm_name, y.vm_name, a.vm_name, b.vm_name)
            &&& same_or_kept(
                x.vm_disk_size_mb,
                y.vm_disk_size_mb,
                a.vm_disk_size_mb,
                b.vm_disk_size_mb,
            )
            &&& same_or_kept(x.vm_memory_mb, y.vm_memory_mb, a.vm_memory_mb, b.vm_memory_mb)
            &&& same_or_kept(
                x.almalinux_iso_url,
                y.almalinux_iso_url,
                a.almalinux_iso_url,
                b.almalinux_iso_url,
            )
            &&& same_or_kept(
                x.xe_guest_utilities_url,
                y.xe_guest_utilities_url,
                a.xe_guest_utilities_url,
                b.xe_guest_utilities_url,
            )
            &&& same_or_kept(
                x.xe_guest_utilities_xenstore_url,
                y.xe_guest_utilities_xenstore_url,
                a.xe_guest_utilities_xenstore_url,
                b.xe_guest_utilities_xenstore_url,
            )
        }),
    decreases n,
{
    if n > 0 {
        lemma_lines_set_or_keep(a, b, lines, n - 1);
    }
}

/// Applying a file twice changes nothing more than applying it once, and finds
/// the same thing wrong with it.
pub proof fn applying_twice_changes_nothing_more(config: BuildConfigView, content: Seq<char>)
    ensures
        with_file(with_file(config, content).0, content) == with_file(config, content),
{
    let lines = text_lines(content);
    let n = lines.len() as int;
    let once = with_lines(config, lines, n).0;
    lemma_lines_set_or_keep(config, once, lines, n);
    lemma_lines_set_no_secret(config, lines, n);
    lemma_lines_set_no_secret(once, lines, n);
    assert(with_lines(once, lines, n).0 == once);
}

proof fn lemma_first_lines(
    config: BuildConfigView,
    a: Seq<Seq<char>>,
    b: Seq<Seq<char>>,
    n: int,
)
    requires
        n <= a.len(),
    ensures
        with_lines(config, a + b, n) == with_lines(config, a, n),
    decreases n,
{
    if n > 0 {
        lemma_first_lines(config, a, b, n - 1);
        assert((a + b)[n - 1] == a[n - 1]);
    }
}

proof fn lemma_last_lines(
    config: BuildConfigView,
    a: Seq<Seq<char>>,
    b: Seq<Seq<char>>,
    n: int,
)
    requires
        0 <= n <= b.len(),
        with_lines(config, a, a.len() as int).1 is Ok,
    ensures
        with_lines(config, a + b, a.len() + n).0 == with_lines(
            with_lines(config, a, a.len() as int).0,
            b,
            n,
        ).0,
        with_lines(config, a + b, a.len() + n).1 is Ok <==> with_lines(
            with_lines(config, a, a.len() as int).0,
            b,
            n,
        ).1 is Ok,
    decreases n,
{
    if n == 0 {
        lemma_first_lines(config, a, b, a.len() as int);
    } else {
        lemma_last_lines(config, a, b, n - 1);
        assert((a + b)[a.len() + n - 1] == b[n - 1]);
    }
}

/// Applying two texts one after the other is applying first the one and then the
/// other, if the first one ends in a line break. Where something is wrong with
/// the first one, the second one does not count.
pub proof fn applying_both_is_applying_in_order(
    config: BuildConfigView,
    a: Seq<char>,
    b: Seq<char>,
)
    requires
        a.len() == 0 || a.last() == '\n',
    ensures
        with_file(config, a).1 is Err ==> with_file(config, a + b) == with_file(config, a),
        with_file(config, a).1 is Ok ==> with_file(config, a + b).0 == with_file(
            with_file(config, a).0,
            b,
        ).0,
        with_file(config, a + b).1 is Ok <==> with_file(config, a).1 is Ok && with_file(
            with_file(config, a).0,
            b,
        ).1 is Ok,
{
    let x = text_lines(a);
    let y = text_lines(b);
    lines_of_both(a, b);
    lemma_first_lines(config, x, y, x.len() as int);
    if with_file(config, a).1 is Err {
        lemma_error_stays(config, x + y, x.len() as int, (x + y).len() as int);
    } else {
        lemma_last_lines(config, x, y, y.len() as int);
    }
}

/// Two texts of two parts each that are equal, and whose last parts are equal, have
/// equal first parts; and the other way round.
proof fn lemma_parts_are_equal(a: Seq<char>, x: Seq<char>, b: Seq<char>, y: Seq<char>)
    ensures
        a + x == b + y && x == y ==> a == b,
        a + x == b + y && a == b ==> x == y,
{
    if a + x == b + y {
        let (s, t) = (a + x, b + y);
        assert(s.len() == t.len());
        if x == y {
            assert(s.take(a.len() as int) =~= a);
            assert(t.take(b.len() as int) =~= b);
        }
        if a == b {
            assert(s.skip(a.len() as int) =~= x);
            assert(t.skip(b.len() as int) =~= y);
        }
    }
}

/// Two lines of the template that set the same key are equal only if they set it to
/// the same value.
proof fn lemma_fields_tell_values(key: Seq<char>, x: Seq<char>, y: Seq<char>, m: u32, n: u32)
    ensures
        text_field(key, x) == text_field(key, y) ==> x == y,
        number_field(key, m) == number_field(key, n) ==> m == n,
{
    lemma_middle_is_determined("    \""@ + key + "\": \""@, x, y, "\",\n"@);
    let (dm, dn) = (decimal(m as nat), decimal(n as nat));
    lemma_middle_is_determined("    \""@ + key + "\": "@, dm, dn, ",\n"@);
    number_reads_decimal(m as nat, u32::MAX as nat);
    number_reads_decimal(n as nat, u32::MAX as nat);
}

/// The parts of a template, in order.
spec fn template_parts(config: BuildConfigView) -> Seq<Seq<char>> {
    Seq::empty()
        .push(PACKER_START@)
        .push(text_field("remote_host"@, config.xcpng_ip))
        .push(text_field("remote_username"@, config.xcpng_user))
        .push(text_field("remote_password"@, config.xcpng_password))
        .push(text_field("iso_url"@, config.almalinux_iso_url))
        .push(text_field("iso_checksum"@, config.almalinux_iso_checksum))
        .push(text_field("sr_name"@, config.sr_name))
        .push(text_field("vm_name"@, config.vm_name))
        .push(text_field("vm_description"@, "XOA HomeLab Edition — AlmaLinux "@ + ALMALINUX_VERSION@))
        .push(number_field("disk_size"@, config.vm_disk_size_mb))
        .push(number_field("vm_memory"@, config.vm_memory_mb))
        .push(text_field("http_directory"@, "."@))
        .push("    \"network_names\": [\""@)
        .push(config.vm_network_name)
        .push("\"],\n"@)
        .push(PACKER_BOOT@)
        .push(text_field("ssh_password"@, config.almalinux_root_password))
        .push(PACKER_FORMAT@)
        .push(OUTPUT_DIR@)
        .push(PACKER_PROVISIONERS@)
        .push(config.xe_guest_utilities_xenstore_url)
        .push(PACKER_GUEST_TOOLS@)
        .push(config.xe_guest_utilities_url)
        .push(PACKER_NODE@)
        .push(config.xoa_hl_rpm_url)
        .push(PACKER_REST@)
}

/// A template is its parts, one after the other.
proof fn lemma_template_is_its_parts(config: BuildConfigView)
    ensures
        packer_template_of(config) == concatenated(template_parts(config)),
        template_parts(config).len() == 26,
        template_parts(config)[0] == PACKER_START@,
        template_parts(config)[1] == text_field("remote_host"@, config.xcpng_ip),
        template_parts(config)[2] == text_field("remote_username"@, config.xcpng_user),
        template_parts(config)[3] == text_field("remote_password"@, config.xcpng_password),
        template_parts(config)[4] == text_field("iso_url"@, config.almalinux_iso_url),
        template_parts(config)[5] == text_field("iso_checksum"@, config.almalinux_iso_checksum),
        template_parts(config)[6] == text_field("sr_name"@, config.sr_name),
        template_parts(config)[7] == text_field("vm_name"@, config.vm_name),
        template_parts(config)[8] == text_field("vm_description"@, "XOA HomeLab Edition — AlmaLinux "@ + ALMALINUX_VERSION@),
        template_parts(config)[9] == number_field("disk_size"@, config.vm_disk_size_mb),
        template_parts(config)[10] == number_field("vm_memory"@, config.vm_memory_mb),
        template_parts(config)[11] == text_field("http_directory"@, "."@),
        template_parts(config)[12] == "    \"network_names\": [\""@,
        template_parts(config)[13] == config.vm_network_name,
        template_parts(config)[14] == "\"],\n"@,
        template_parts(config)[15] == PACKER_BOOT@,
        template_parts(config)[16] == text_field("ssh_password"@, config.almalinux_root_password),
        template_parts(config)[17] == PACKER_FORMAT@,
        template_parts(config)[18] == OUTPUT_DIR@,
        template_parts(config)[19] == PACKER_PROVISIONERS@,
        template_parts(config)[20] == config.xe_guest_utilities_xenstore_url,
        template_parts(config)[21] == PACKER_GUEST_TOOLS@,
        template_parts(config)[22] == config.xe_guest_utilities_url,
        template_parts(config)[23] == PACKER_NODE@,
        template_parts(config)[24] == config.xoa_hl_rpm_url,
        template_parts(config)[25] == PACKER_REST@,
{
    let p0 = Seq::<Seq<char>>::empty().push(PACKER_START@);
    lemma_concatenated_push(Seq::empty(), PACKER_START@);
    assert(Seq::<char>::empty() + PACKER_START@ =~= PACKER_START@);
    let p1 = p0.push(text_field("remote_host"@, config.xcpng_ip));
    lemma_concatenated_push(p0, text_field("remote_host"@, config.xcpng_ip));
    let p2 = p1.push(text_field("remote_username"@, config.xcpng_user));
    lemma_concatenated_push(p1, text_field("remote_username"@, config.xcpng_user));
    let p3 = p2.push(text_field("remote_password"@, config.xcpng_password));
    lemma_concatenated_push(p2, text_field("remote_password"@, config.xcpng_password));
    let p4 = p3.push(text_field("iso_url"@, config.almalinux_iso_url));
    lemma_concatenated_push(p3, text_field("iso_url"@, config.almalinux_iso_url));
    let p5 = p4.push(text_field("iso_checksum"@, config.almalinux_iso_checksum));
    lemma_concatenated_push(p4, text_field("iso_checksum"@, config.almalinux_iso_checksum));
    let p6 = p5.push(text_field("sr_name"@, config.sr_name));
    lemma_concatenated_push(p5, text_field("sr_name"@, config.sr_name));
    let p7 = p6.push(text_field("vm_name"@, config.vm_name));
    lemma_concatenated_push(p6, text_field("vm_name"@, config.vm_name));
    let p8 = p7.push(text_field("vm_description"@, "XOA HomeLab Edition — AlmaLinux "@ + ALMALINUX_VERSION@));
    lemma_concatenated_push(p7, text_field("vm_description"@, "XOA HomeLab Edition — AlmaLinux "@ + ALMALINUX_VERSION@));
    let p9 = p8.push(number_field("disk_size"@, config.vm_disk_size_mb));
    lemma_concatenated_push(p8, number_field("disk_size"@, config.vm_disk_size_mb));
    let p10 = p9.push(number_field("vm_memory"@, config.vm_memory_mb));
    lemma_concatenated_push(p9, number_field("vm_memory"@, config.vm_memory_mb));
    let p11 = p10.push(text_field("http_directory"@, "."@));
    lemma_concatenated_push(p10, text_field("http_directory"@, "."@));
    let p12 = p11.push("    \"network_names\": [\""@);
    lemma_concatenated_push(p11, "    \"network_names\": [\""@);
    let p13 = p12.push(config.vm_network_name);
    lemma_concatenated_push(p12, config.vm_network_name);
    let p14 = p13.push("\"],\n"@);
    lemma_concatenated_push(p13, "\"],\n"@);
    let p15 = p14.push(PACKER_BOOT@);
    lemma_concatenated_push(p14, PACKER_BOOT@);
    let p16 = p15.push(text_field("ssh_password"@, config.almalinux_root_password));
    lemma_concatenated_push(p15, text_field("ssh_password"@, config.almalinux_root_password));
    let p17 = p16.push(PACKER_FORMAT@);
    lemma_concatenated_push(p16, PACKER_FORMAT@);
    let p18 = p17.push(OUTPUT_DIR@);
    lemma_concatenated_push(p17, OUTPUT_DIR@);
    let p19 = p18.push(PACKER_PROVISIONERS@);
    lemma_concatenated_push(p18, PACKER_PROVISIONERS@);
    let p20 = p19.push(config.xe_guest_utilities_xenstore_url);
    lemma_concatenated_push(p19, config.xe_guest_utilities_xenstore_url);
    let p21 = p20.push(PACKER_GUEST_TOOLS@);
    lemma_concatenated_push(p20, PACKER_GUEST_TOOLS@);
    let p22 = p21.push(config.xe_guest_utilities_url);
    lemma_concatenated_push(p21, config.xe_guest_utilities_url);
    let p23 = p22.push(PACKER_NODE@);
    lemma_concatenated_push(p22, PACKER_NODE@);
    let p24 = p23.push(config.xoa_hl_rpm_url);
    lemma_concatenated_push(p23, config.xoa_hl_rpm_url);
    let p25 = p24.push(PACKER_REST@);
    lemma_concatenated_push(p24, PACKER_REST@);
    assert(p25 == template_parts(config));
}

/// What stands in a template, part by part.
proof fn lemma_template_has_parts(config: BuildConfigView)
    ensures
        has_text(packer_template_of(config), text_field("remote_host"@, config.xcpng_ip)),
        has_text(packer_template_of(config), text_field("remote_username"@, config.xcpng_user)),
        has_text(packer_template_of(config), text_field("remote_password"@, config.xcpng_password)),
        has_text(packer_template_of(config), text_field("iso_url"@, config.almalinux_iso_url)),
        has_text(packer_template_of(config), text_field("iso_checksum"@, config.almalinux_iso_checksum)),
        has_text(packer_template_of(config), text_field("sr_name"@, config.sr_name)),
        has_text(packer_template_of(config), text_field("vm_name"@, config.vm_name)),
        has_text(packer_template_of(config), number_field("disk_size"@, config.vm_disk_size_mb)),
        has_text(packer_template_of(config), number_field("vm_memory"@, config.vm_memory_mb)),
        has_text(
            packer_template_of(config),
            "    \"network_names\": [\""@ + config.vm_network_name + "\"],\n"@,
        ),
        has_text(packer_template_of(config), text_field("ssh_password"@, config.almalinux_root_password)),
        has_text(
            packer_template_of(config),
            PACKER_PROVISIONERS@ + config.xe_guest_utilities_xenstore_url + PACKER_GUEST_TOOLS@,
        ),
        has_text(
            packer_template_of(config),
            PACKER_GUEST_TOOLS@ + config.xe_guest_utilities_url + PACKER_NODE@,
        ),
        has_text(
            packer_template_of(config),
            PACKER_NODE@ + config.xoa_hl_rpm_url + PACKER_REST@,
        ),
{
    let parts = template_parts(config);
    lemma_template_is_its_parts(config);
    lemma_concatenated_has_part(parts, 1);
    lemma_concatenated_has_part(parts, 2);
    lemma_concatenated_has_part(parts, 3);
    lemma_concatenated_has_part(parts, 4);
    lemma_concatenated_has_part(parts, 5);
    lemma_concatenated_has_part(parts, 6);
    lemma_concatenated_has_part(parts, 7);
    lemma_concatenated_has_part(parts, 9);
    lemma_concatenated_has_part(parts, 10);
    lemma_concatenated_has_three(parts, 12);
    lemma_concatenated_has_part(parts, 16);
    lemma_concatenated_has_three(parts, 19);
    lemma_concatenated_has_three(parts, 21);
    lemma_concatenated_has_three(parts, 23);
}

/// Each setting of the configuration stands in the template under its own key, and
/// the guest tools and the package are fetched from where the configuration says.
pub proof fn template_holds_every_setting(config: BuildConfigView)
    ensures
        has_text(
            packer_template_of(config),
            "    \"remote_host\": \""@ + config.xcpng_ip + "\",\n"@,
        ),
        has_text(
            packer_template_of(config),
            "    \"remote_username\": \""@ + config.xcpng_user + "\",\n"@,
        ),
        has_text(
            packer_template_of(config),
            "    \"remote_password\": \""@ + config.xcpng_password + "\",\n"@,
        ),
        has_text(
            packer_template_of(config),
            "    \"iso_url\": \""@ + config.almalinux_iso_url + "\",\n"@,
        ),
        has_text(
            packer_template_of(config),
            "    \"iso_checksum\": \""@ + config.almalinux_iso_checksum + "\",\n"@,
        ),
        has_text(
            packer_template_of(config),
            "    \"sr_name\": \""@ + config.sr_name + "\",\n"@,
        ),
        has_text(
            packer_template_of(config),
            "    \"vm_name\": \""@ + config.vm_name + "\",\n"@,
        ),
        has_text(
            packer_template_of(config),
            "    \"ssh_password\": \""@ + config.almalinux_root_password + "\",\n"@,
        ),
        has_text(
            packer_template_of(config),
            "    \"disk_size\": "@ + decimal(config.vm_disk_size_mb as nat) + ",\n"@,
        ),
        has_text(
            packer_template_of(config),
            "    \"vm_memory\": "@ + decimal(config.vm_memory_mb as nat) + ",\n"@,
        ),
        has_text(
            packer_template_of(config),
            "    \"network_names\": [\""@ + config.vm_network_name + "\"],\n"@,
        ),
        has_text(
            packer_template_of(config),
            PACKER_PROVISIONERS@ + config.xe_guest_utilities_xenstore_url + PACKER_GUEST_TOOLS@,
        ),
        has_text(
            packer_template_of(config),
            PACKER_GUEST_TOOLS@ + config.xe_guest_utilities_url + PACKER_NODE@,
        ),
        has_text(
            packer_template_of(config),
            PACKER_NODE@ + config.xoa_hl_rpm_url + PACKER_REST@,
        ),
{
    lemma_template_has_parts(config);
    reveal_strlit("    \"");
    reveal_strlit("\": \"");
    reveal_strlit("\": ");
    reveal_strlit("remote_host");
    reveal_strlit("    \"remote_host\": \"");
    assert("    \"remote_host\": \""@ =~= "    \""@ + "remote_host"@ + "\": \""@);
    reveal_strlit("remote_username");
    reveal_strlit("    \"remote_username\": \"");
    assert("    \"remote_username\": \""@ =~= "    \""@ + "remote_username"@ + "\": \""@);
    reveal_strlit("remote_password");
    reveal_strlit("    \"remote_password\": \"");
    assert("    \"remote_password\": \""@ =~= "    \""@ + "remote_password"@ + "\": \""@);
    reveal_strlit("iso_url");
    reveal_strlit("    \"iso_url\": \"");
    assert("    \"iso_url\": \""@ =~= "    \""@ + "iso_url"@ + "\": \""@);
    reveal_strlit("iso_checksum");
    reveal_strlit("    \"iso_checksum\": \"");
    assert("    \"iso_checksum\": \""@ =~= "    \""@ + "iso_checksum"@ + "\": \""@);
    reveal_strlit("sr_name");
    reveal_strlit("    \"sr_name\": \"");
    assert("    \"sr_name\": \""@ =~= "    \""@ + "sr_name"@ + "\": \""@);
    reveal_strlit("vm_name");
    reveal_strlit("    \"vm_name\": \"");
    assert("    \"vm_name\": \""@ =~= "    \""@ + "vm_name"@ + "\": \""@);
    reveal_strlit("ssh_password");
    reveal_strlit("    \"ssh_password\": \"");
    assert("    \"ssh_password\": \""@ =~= "    \""@ + "ssh_password"@ + "\": \""@);
    reveal_strlit("disk_size");
    reveal_strlit("    \"disk_size\": ");
    assert("    \"disk_size\": "@ =~= "    \""@ + "disk_size"@ + "\": "@);
    reveal_strlit("vm_memory");
    reveal_strlit("    \"vm_memory\": ");
    assert("    \"vm_memory\": "@ =~= "    \""@ + "vm_memory"@ + "\": "@);
}

/// Two configurations that give the same template and agree in all settings but one
/// agree in that one too.
proof fn lemma_templates_tell_settings(a: BuildConfigView, b: BuildConfigView)
    requires
        packer_template_of(a) == packer_template_of(b),
    ensures
        (BuildConfigView { xcpng_ip: b.xcpng_ip, ..a }) == b ==> a.xcpng_ip == b.xcpng_ip,
        (BuildConfigView { xcpng_user: b.xcpng_user, ..a }) == b ==> a.xcpng_user == b.xcpng_user,
        (BuildConfigView { xcpng_password: b.xcpng_password, ..a }) == b ==> a.xcpng_password == b.xcpng_password,
        (BuildConfigView { almalinux_iso_url: b.almalinux_iso_url, ..a }) == b ==> a.almalinux_iso_url == b.almalinux_iso_url,
        (BuildConfigView { almalinux_iso_checksum: b.almalinux_iso_checksum, ..a }) == b ==> a.almalinux_iso_checksum == b.almalinux_iso_checksum,
        (BuildConfigView { sr_name: b.sr_name, ..a }) == b ==> a.sr_name == b.sr_name,
        (BuildConfigView { vm_name: b.vm_name, ..a }) == b ==> a.vm_name == b.vm_name,
        (BuildConfigView { vm_disk_size_mb: b.vm_disk_size_mb, ..a }) == b ==> a.vm_disk_size_mb == b.vm_disk_size_mb,
        (BuildConfigView { vm_memory_mb: b.vm_memory_mb, ..a }) == b ==> a.vm_memory_mb == b.vm_memory_mb,
        (BuildConfigView { vm_network_name: b.vm_network_name, ..a }) == b ==> a.vm_network_name == b.vm_network_name,
        (BuildConfigView { almalinux_root_password: b.almalinux_root_password, ..a }) == b ==> a.almalinux_root_password == b.almalinux_root_password,
        (BuildConfigView { xe_guest_utilities_xenstore_url: b.xe_guest_utilities_xenstore_url, ..a }) == b ==> a.xe_guest_utilities_xenstore_url == b.xe_guest_utilities_xenstore_url,
        (BuildConfigView { xe_guest_utilities_url: b.xe_guest_utilities_url, ..a }) == b ==> a.xe_guest_utilities_url == b.xe_guest_utilities_url,
        (BuildConfigView { xoa_hl_rpm_url: b.xoa_hl_rpm_url, ..a }) == b ==> a.xoa_hl_rpm_url == b.xoa_hl_rpm_url,
{
    let a0 = PACKER_START@;
    let a1 = a0 + text_field("remote_host"@, a.xcpng_ip);
    let a2 = a1 + text_field("remote_username"@, a.xcpng_user);
    let a3 = a2 + text_field("remote_password"@, a.xcpng_password);
    let a4 = a3 + text_field("iso_url"@, a.almalinux_iso_url);
    let a5 = a4 + text_field("iso_checksum"@, a.almalinux_iso_checksum);
    let a6 = a5 + text_field("sr_name"@, a.sr_name);
    let a7 = a6 + text_field("vm_name"@, a.vm_name);
    let a8 = a7 + text_field("vm_description"@, "XOA HomeLab Edition — AlmaLinux "@ + ALMALINUX_VERSION@);
    let a9 = a8 + number_field("disk_size"@, a.vm_disk_size_mb);
    let a10 = a9 + number_field("vm_memory"@, a.vm_memory_mb);
    let a11 = a10 + text_field("http_directory"@, "."@);
    let a12 = a11 + "    \"network_names\": [\""@;
    let a13 = a12 + a.vm_network_name;
    let a14 = a13 + "\"],\n"@;
    let a15 = a14 + PACKER_BOOT@;
    let a16 = a15 + text_field("ssh_password"@, a.almalinux_root_password);
    let a17 = a16 + PACKER_FORMAT@;
    let a18 = a17 + OUTPUT_DIR@;
    let a19 = a18 + PACKER_PROVISIONERS@;
    let a20 = a19 + a.xe_guest_utilities_xenstore_url;
    let a21 = a20 + PACKER_GUEST_TOOLS@;
    let a22 = a21 + a.xe_guest_utilities_url;
    let a23 = a22 + PACKER_NODE@;
    let a24 = a23 + a.xoa_hl_rpm_url;
    let a25 = a24 + PACKER_REST@;
    let b0 = PACKER_START@;
    let b1 = b0 + text_field("remote_host"@, b.xcpng_ip);
    let b2 = b1 + text_field("remote_username"@, b.xcpng_user);
    let b3 = b2 + text_field("remote_password"@, b.xcpng_password);
    let b4 = b3 + text_field("iso_url"@, b.almalinux_iso_url);
    let b5 = b4 + text_field("iso_checksum"@, b.almalinux_iso_checksum);
    let b6 = b5 + text_field("sr_name"@, b.sr_name);
    let b7 = b6 + text_field("vm_name"@, b.vm_name);
    let b8 = b7 + text_field("vm_description"@, "XOA HomeLab Edition — AlmaLinux "@ + ALMALINUX_VERSION@);
    let b9 = b8 + number_field("disk_size"@, b.vm_disk_size_mb);
    let b10 = b9 + number_field("vm_memory"@, b.vm_memory_mb);
    let b11 = b10 + text_field("http_directory"@, "."@);
    let b12 = b11 + "    \"network_names\": [\""@;
    let b13 = b12 + b.vm_network_name;
    let b14 = b13 + "\"],\n"@;
    let b15 = b14 + PACKER_BOOT@;
    let b16 = b15 + text_field("ssh_password"@, b.almalinux_root_password);
    let b17 = b16 + PACKER_FORMAT@;
    let b18 = b17 + OUTPUT_DIR@;
    let b19 = b18 + PACKER_PROVISIONERS@;
    let b20 = b19 + b.xe_guest_utilities_xenstore_url;
    let b21 = b20 + PACKER_GUEST_TOOLS@;
    let b22 = b21 + b.xe_guest_utilities_url;
    let b23 = b22 + PACKER_NODE@;
    let b24 = b23 + b.xoa_hl_rpm_url;
    let b25 = b24 + PACKER_REST@;
    lemma_parts_are_equal(a24, PACKER_REST@, b24, PACKER_REST@);
    lemma_parts_are_equal(a23, a.xoa_hl_rpm_url, b23, b.xoa_hl_rpm_url);
    lemma_parts_are_equal(a22, PACKER_NODE@, b22, PACKER_NODE@);
    lemma_parts_are_equal(a21, a.xe_guest_utilities_url, b21, b.xe_guest_utilities_url);
    lemma_parts_are_equal(a20, PACKER_GUEST_TOOLS@, b20, PACKER_GUEST_TOOLS@);
    lemma_parts_are_equal(a19, a.xe_guest_utilities_xenstore_url, b19, b.xe_guest_utilities_xenstore_url);
    lemma_parts_are_equal(a18, PACKER_PROVISIONERS@, b18, PACKER_PROVISIONERS@);
    lemma_parts_are_equal(a17, OUTPUT_DIR@, b17, OUTPUT_DIR@);
    lemma_parts_are_equal(a16, PACKER_FORMAT@, b16, PACKER_FORMAT@);
    lemma_parts_are_equal(a15, text_field("ssh_password"@, a.almalinux_root_password), b15, text_field("ssh_password"@, b.almalinux_root_password));
    lemma_parts_are_equal(a14, PACKER_BOOT@, b14, PACKER_BOOT@);
    lemma_parts_are_equal(a13, "\"],\n"@, b13, "\"],\n"@);
    lemma_parts_are_equal(a12, a.vm_network_name, b12, b.vm_network_name);
    lemma_parts_are_equal(a11, "    \"network_names\": [\""@, b11, "    \"network_names\": [\""@);
    lemma_parts_are_equal(a10, text_field("http_directory"@, "."@), b10, text_field("http_directory"@, "."@));
    lemma_parts_are_equal(a9, number_field("vm_memory"@, a.vm_memory_mb), b9, number_field("vm_memory"@, b.vm_memory_mb));
    lemma_parts_are_equal(a8, number_field("disk_size"@, a.vm_disk_size_mb), b8, number_field("disk_size"@, b.vm_disk_size_mb));
    lemma_parts_are_equal(a7, text_field("vm_description"@, "XOA HomeLab Edition — AlmaLinux "@ + ALMALINUX_VERSION@), b7, text_field("vm_description"@, "XOA HomeLab Edition — AlmaLinux "@ + ALMALINUX_VERSION@));
    lemma_parts_are_equal(a6, text_field("vm_name"@, a.vm_name), b6, text_field("vm_name"@, b.vm_name));
    lemma_parts_are_equal(a5, text_field("sr_name"@, a.sr_name), b5, text_field("sr_name"@, b.sr_name));
    lemma_parts_are_equal(a4, text_field("iso_checksum"@, a.almalinux_iso_checksum), b4, text_field("iso_checksum"@, b.almalinux_iso_checksum));
    lemma_parts_are_equal(a3, text_field("iso_url"@, a.almalinux_iso_url), b3, text_field("iso_url"@, b.almalinux_iso_url));
    lemma_parts_are_equal(a2, text_field("remote_password"@, a.xcpng_password), b2, text_field("remote_password"@, b.xcpng_password));
    lemma_parts_are_equal(a1, text_field("remote_username"@, a.xcpng_user), b1, text_field("remote_username"@, b.xcpng_user));
    lemma_parts_are_equal(a0, text_field("remote_host"@, a.xcpng_ip), b0, text_field("remote_host"@, b.xcpng_ip));
    lemma_fields_tell_values("remote_host"@, a.xcpng_ip, b.xcpng_ip, 0, 0);
    lemma_fields_tell_values("remote_username"@, a.xcpng_user, b.xcpng_user, 0, 0);
    lemma_fields_tell_values("remote_password"@, a.xcpng_password, b.xcpng_password, 0, 0);
    lemma_fields_tell_values("iso_url"@, a.almalinux_iso_url, b.almalinux_iso_url, 0, 0);
    lemma_fields_tell_values("iso_checksum"@, a.almalinux_iso_checksum, b.almalinux_iso_checksum, 0, 0);
    lemma_fields_tell_values("sr_name"@, a.sr_name, b.sr_name, 0, 0);
    lemma_fields_tell_values("vm_name"@, a.vm_name, b.vm_name, 0, 0);
    lemma_fields_tell_values("disk_size"@, Seq::empty(), Seq::empty(), a.vm_disk_size_mb, b.vm_disk_size_mb);
    lemma_fields_tell_values("vm_memory"@, Seq::empty(), Seq::empty(), a.vm_memory_mb, b.vm_memory_mb);
    lemma_fields_tell_values("ssh_password"@, a.almalinux_root_password, b.almalinux_root_password, 0, 0);
    assert(a25 == packer_template_of(a));
    assert(b25 == packer_template_of(b));
}

/// Two configurations that differ in one setting give different templates.
pub proof fn templates_tell_settings_apart(config: BuildConfigView, text: Seq<char>, n: u32)
    ensures
        packer_template_of(config) == packer_template_of(
            BuildConfigView { xcpng_ip: text, ..config },
        ) ==> config.xcpng_ip == text,
        packer_template_of(config) == packer_template_of(
            BuildConfigView { xcpng_user: text, ..config },
        ) ==> config.xcpng_user == text,
        packer_template_of(config) == packer_template_of(
            BuildConfigView { xcpng_password: text, ..config },
        ) ==> config.xcpng_password == text,
        packer_template_of(config) == packer_template_of(
            BuildConfigView { almalinux_iso_url: text, ..config },
        ) ==> config.almalinux_iso_url == text,
        packer_template_of(config) == packer_template_of(
            BuildConfigView { almalinux_iso_checksum: text, ..config },
        ) ==> config.almalinux_iso_checksum == text,
        packer_template_of(config) == packer_template_of(
            BuildConfigView { sr_name: text, ..config },
        ) ==> config.sr_name == text,
        packer_template_of(config) == packer_template_of(
            BuildConfigView { vm_name: text, ..config },
        ) ==> config.vm_name == text,
        packer_template_of(config) == packer_template_of(
            BuildConfigView { vm_disk_size_mb: n, ..config },
        ) ==> config.vm_disk_size_mb == n,
        packer_template_of(config) == packer_template_of(
            BuildConfigView { vm_memory_mb: n, ..config },
        ) ==> config.vm_memory_mb == n,
        packer_template_of(config) == packer_template_of(
            BuildConfigView { vm_network_name: text, ..config },
        ) ==> config.vm_network_name == text,
        packer_template_of(config) == packer_template_of(
            BuildConfigView { almalinux_root_password: text, ..config },
        ) ==> config.almalinux_root_password == text,
        packer_template_of(config) == packer_template_of(
            BuildConfigView { xe_guest_utilities_xenstore_url: text, ..config },
        ) ==> config.xe_guest_utilities_xenstore_url == text,
        packer_template_of(config) == packer_template_of(
            BuildConfigView { xe_guest_utilities_url: text, ..config },
        ) ==> config.xe_guest_utilities_url == text,
        packer_template_of(config) == packer_template_of(
            BuildConfigView { xoa_hl_rpm_url: text, ..config },
        ) ==> config.xoa_hl_rpm_url == text,
{
    if packer_template_of(config) == packer_template_of(BuildConfigView { xcpng_ip: text, ..config }) {
        lemma_templates_tell_settings(config, BuildConfigView { xcpng_ip: text, ..config });
    }
    if packer_template_of(config) == packer_template_of(BuildConfigView { xcpng_user: text, ..config }) {
        lemma_templates_tell_settings(config, BuildConfigView { xcpng_user: text, ..config });
    }
    if packer_template_of(config) == packer_template_of(BuildConfigView { xcpng_password: text, ..config }) {
        lemma_templates_tell_settings(config, BuildConfigView { xcpng_password: text, ..config });
    }
    if packer_template_of(config) == packer_template_of(BuildConfigView { almalinux_iso_url: text, ..config }) {
        lemma_templates_tell_settings(config, BuildConfigView { almalinux_iso_url: text, ..config });
    }
    if packer_template_of(config) == packer_template_of(BuildConfigView { almalinux_iso_checksum: text, ..config }) {
        lemma_templates_tell_settings(config, BuildConfigView { almalinux_iso_checksum: text, ..config });
    }
    if packer_template_of(config) == packer_template_of(BuildConfigView { sr_name: text, ..config }) {
        lemma_templates_tell_settings(config, BuildConfigView { sr_name: text, ..config });
    }
    if packer_template_of(config) == packer_template_of(BuildConfigView { vm_name: text, ..config }) {
        lemma_templates_tell_settings(config, BuildConfigView { vm_name: text, ..config });
    }
    if packer_template_of(config) == packer_template_of(BuildConfigView { vm_disk_size_mb: n, ..config }) {
        lemma_templates_tell_settings(config, BuildConfigView { vm_disk_size_mb: n, ..config });
    }
    if packer_template_of(config) == packer_template_of(BuildConfigView { vm_memory_mb: n, ..config }) {
        lemma_templates_tell_settings(config, BuildConfigView { vm_memory_mb: n, ..config });
    }
    if packer_template_of(config) == packer_template_of(BuildConfigView { vm_network_name: text, ..config }) {
        lemma_templates_tell_settings(config, BuildConfigView { vm_network_name: text, ..config });
    }
    if packer_template_of(config) == packer_template_of(BuildConfigView { almalinux_root_password: text, ..config }) {
        lemma_templates_tell_settings(config, BuildConfigView { almalinux_root_password: text, ..config });
    }
    if packer_template_of(config) == packer_template_of(BuildConfigView { xe_guest_utilities_xenstore_url: text, ..config }) {
        lemma_templates_tell_settings(config, BuildConfigView { xe_guest_utilities_xenstore_url: text, ..config });
    }
    if packer_template_of(config) == packer_template_of(BuildConfigView { xe_guest_utilities_url: text, ..config }) {
        lemma_templates_tell_settings(config, BuildConfigView { xe_guest_utilities_url: text, ..config });
    }
    if packer_template_of(config) == packer_template_of(BuildConfigView { xoa_hl_rpm_url: text, ..config }) {
        lemma_templates_tell_settings(config, BuildConfigView { xoa_hl_rpm_url: text, ..config });
    }
}

/// The last three of four parts stand in the whole.
proof fn lemma_end_of_four(a: Seq<char>, b: Seq<char>, c: Seq<char>, d: Seq<char>)
    ensures
        has_text(a + b + c + d, b + c + d),
{
    lemma_has_tail(a, b + c + d);
    assert(a + b + c + d =~= a + (b + c + d));
}

/// The kickstart file sets the root password of the configuration, and nothing else
/// of it: files for two passwords differ, and other settings do not matter.
pub proof fn kickstart_sets_the_password(config: BuildConfigView, other: BuildConfigView)
    ensures
        has_text(
            kickstart_of(config),
            KICKSTART_SETUP@ + config.almalinux_root_password + KICKSTART_REST@,
        ),
        kickstart_of(config) == kickstart_of(other) <==> config.almalinux_root_password
            == other.almalinux_root_password,
{
    let start = "# AlmaLinux "@ + ALMALINUX_VERSION@;
    lemma_end_of_four(start, KICKSTART_SETUP@, config.almalinux_root_password, KICKSTART_REST@);
    lemma_middle_is_determined(
        start + KICKSTART_SETUP@,
        config.almalinux_root_password,
        other.almalinux_root_password,
        KICKSTART_REST@,
    );
}

proof fn lemma_keys_differ()
    ensures
        setting_keys().no_duplicates(),
{
    reveal_strlit("XCPNG_IP");
    reveal_strlit("XCPNG_USER");
    reveal_strlit("SR_NAME");
    reveal_strlit("VM_NETWORK_NAME");
    reveal_strlit("VM_NAME");
    reveal_strlit("VM_DISK_SIZE_MB");
    reveal_strlit("VM_MEMORY_MB");
    reveal_strlit("ALMALINUX_ISO_URL");
    reveal_strlit("XE_GUEST_UTILITIES_URL");
    reveal_strlit("XE_GUEST_UTILITIES_XENSTORE_URL");
    assert("XCPNG_IP"@.len() == 8 && "XCPNG_USER"@.len() == 10 && "SR_NAME"@.len() == 7);
    assert("VM_NETWORK_NAME"@.len() == 15 && "VM_NAME"@.len() == 7 && "VM_DISK_SIZE_MB"@.len() == 15);
    assert("VM_MEMORY_MB"@.len() == 12 && "ALMALINUX_ISO_URL"@.len() == 17);
    assert("XE_GUEST_UTILITIES_URL"@.len() == 22 && "XE_GUEST_UTILITIES_XENSTORE_URL"@.len() == 31);
    assert("SR_NAME"@[0] == 'S' && "VM_NAME"@[0] == 'V');
    assert("VM_NETWORK_NAME"@[3] == 'N' && "VM_DISK_SIZE_MB"@[3] == 'D');
    let keys = setting_keys();
    assert(keys[0] == "XCPNG_IP"@ && keys[1] == "XCPNG_USER"@ && keys[2] == "SR_NAME"@ && keys[3]
        == "VM_NETWORK_NAME"@ && keys[4] == "VM_NAME"@ && keys[5] == "VM_DISK_SIZE_MB"@ && keys[6]
        == "VM_MEMORY_MB"@ && keys[7] == "ALMALINUX_ISO_URL"@ && keys[8]
        == "XE_GUEST_UTILITIES_URL"@ && keys[9] == "XE_GUEST_UTILITIES_XENSTORE_URL"@);
}

/// The keys of the file.
pub open spec fn setting_keys() -> Seq<Seq<char>> {
    seq![
        "XCPNG_IP"@,
        "XCPNG_USER"@,
        "SR_NAME"@,
        "VM_NETWORK_NAME"@,
        "VM_NAME"@,
        "VM_DISK_SIZE_MB"@,
        "VM_MEMORY_MB"@,
        "ALMALINUX_ISO_URL"@,
        "XE_GUEST_UTILITIES_URL"@,
        "XE_GUEST_UTILITIES_XENSTORE_URL"@,
    ]
}

/// Each key of the file sets the setting that it is named after, to the value as it
/// is written, and no other.
pub proof fn keys_set_their_settings(
    config: BuildConfigView,
    value: Seq<char>,
    megabytes: u32,
    key: Seq<char>,
)
    ensures
        with_entry(config, "XCPNG_IP"@, value) == Some(
            BuildConfigView { xcpng_ip: value, ..config },
        ),
        with_entry(config, "XCPNG_USER"@, value) == Some(
            BuildConfigView { xcpng_user: value, ..config },
        ),
        with_entry(config, "SR_NAME"@, value) == Some(BuildConfigView { sr_name: value, ..config }),
        with_entry(config, "VM_NETWORK_NAME"@, value) == Some(
            BuildConfigView { vm_network_name: value, ..config },
        ),
        with_entry(config, "VM_NAME"@, value) == Some(BuildConfigView { vm_name: value, ..config }),
        with_entry(config, "ALMALINUX_ISO_URL"@, value) == Some(
            BuildConfigView { almalinux_iso_url: value, ..config },
        ),
        with_entry(config, "XE_GUEST_UTILITIES_URL"@, value) == Some(
            BuildConfigView { xe_guest_utilities_url: value, ..config },
        ),
        with_entry(config, "XE_GUEST_UTILITIES_XENSTORE_URL"@, value) == Some(
            BuildConfigView { xe_guest_utilities_xenstore_url: value, ..config },
        ),
        with_entry(config, "VM_DISK_SIZE_MB"@, decimal(megabytes as nat)) == Some(
            BuildConfigView { vm_disk_size_mb: megabytes, ..config },
        ),
        with_entry(config, "VM_MEMORY_MB"@, decimal(megabytes as nat)) == Some(
            BuildConfigView { vm_memory_mb: megabytes, ..config },
        ),
        number(value, u32::MAX as nat) is None ==> with_entry(config, "VM_DISK_SIZE_MB"@, value)
            is None && with_entry(config, "VM_MEMORY_MB"@, value) is None,
        !setting_keys().contains(key) ==> with_entry(config, key, value) == Some(config),
{
    lemma_keys_differ();
    number_reads_decimal(megabytes as nat, u32::MAX as nat);
    let keys = setting_keys();
    assert(keys[0] == "XCPNG_IP"@ && keys[1] == "XCPNG_USER"@ && keys[2] == "SR_NAME"@ && keys[3]
        == "VM_NETWORK_NAME"@ && keys[4] == "VM_NAME"@ && keys[5] == "VM_DISK_SIZE_MB"@ && keys[6]
        == "VM_MEMORY_MB"@ && keys[7] == "ALMALINUX_ISO_URL"@ && keys[8]
        == "XE_GUEST_UTILITIES_URL"@ && keys[9] == "XE_GUEST_UTILITIES_XENSTORE_URL"@);
}

/// A line `KEY="VALUE"` or `KEY='VALUE'` reads as its key and its value, whatever the
/// value is and whatever white space stands around the parts. Without quotes, a value
/// that starts and ends in something else than white space reads as it is.
pub proof fn lines_read_back(
    key: Seq<char>,
    value: Seq<char>,
    before: Seq<char>,
    left: Seq<char>,
    right: Seq<char>,
    after: Seq<char>,
)
    requires
        key.len() > 0,
        !is_white_space(key[0]),
        !is_white_space(key.last()),
        key[0] != '#',
        forall|i: int| 0 <= i < key.len() ==> key[i] != '=',
        all_white_space(before),
        all_white_space(left),
        all_white_space(right),
        all_white_space(after),
    ensures
        line_of(before + (key + left + "="@ + right + ("\""@ + value + "\""@)) + after)
            == LineView::Entry(key, value),
        line_of(before + (key + left + "="@ + right + ("'"@ + value + "'"@)) + after)
            == LineView::Entry(key, value),
        value.len() > 0 && !is_white_space(value[0]) && !is_white_space(value.last()) && value[0]
            != '"' && value[0] != '\'' ==> line_of(
            before + (key + left + "="@ + right + value) + after,
        ) == LineView::Entry(key, value),
{
    reveal_strlit("\"");
    reveal_strlit("'");
    let double = "\""@ + value + "\""@;
    let single = "'"@ + value + "'"@;
    lemma_line_reads(key, double, before, left, right, after);
    lemma_line_reads(key, single, before, left, right, after);
    assert(double.subrange(1, double.len() - 1) =~= value);
    assert(single.subrange(1, single.len() - 1) =~= value);
    if value.len() > 0 && !is_white_space(value[0]) && !is_white_space(value.last()) {
        lemma_line_reads(key, value, before, left, right, after);
    }
}

proof fn lemma_line_reads(
    key: Seq<char>,
    written: Seq<char>,
    before: Seq<char>,
    left: Seq<char>,
    right: Seq<char>,
    after: Seq<char>,
)
    requires
        key.len() > 0,
        !is_white_space(key[0]),
        !is_white_space(key.last()),
        key[0] != '#',
        forall|i: int| 0 <= i < key.len() ==> key[i] != '=',
        all_white_space(before),
        all_white_space(left),
        all_white_space(right),
        all_white_space(after),
        written.len() > 0,
        !is_white_space(written[0]),
        !is_white_space(written.last()),
    ensures
        line_of(before + (key + left + "="@ + right + written) + after) == LineView::Entry(
            key,
            unquoted(written),
        ),
{
    reveal_strlit("=");
    let line = key + left + "="@ + right + written;
    let none = Seq::<char>::empty();
    assert(line[0] == key[0]);
    assert(line.last() == written.last());
    trimming_undoes_padding(before, line, after);
    let at = (key.len() + left.len()) as int;
    assert(line[at] == '=');
    assert forall|i: int| 0 <= i < at implies line[i] != '=' by {
        if i >= key.len() {
            assert(line[i] == left[i - key.len()]);
            assert(is_white_space(left[i - key.len()]));
        }
    }
    lemma_first_position_is(line, '=', at);
    assert(line.take(at) =~= none + key + left);
    trimming_undoes_padding(none, key, left);
    assert(line.skip(at + 1) =~= right + written + none);
    trimming_undoes_padding(right, written, none);
}

/// A blank line and a comment say nothing; a line with neither a comment nor an
/// equals sign is wrong.
pub proof fn lines_without_an_entry(line: Seq<char>)
    ensures
        all_white_space(line) ==> line_of(line) is Nothing,
        trimmed(line).len() > 0 && trimmed(line)[0] == '#' ==> line_of(line) is Nothing,
        trimmed(line).len() > 0 && trimmed(line)[0] != '#' && (forall|i: int|
            0 <= i < trimmed(line).len() ==> trimmed(line)[i] != '=') ==> line_of(line) is Malformed,
{
    if all_white_space(line) {
        trimmed_white_space(line);
    }
    if forall|i: int| 0 <= i < trimmed(line).len() ==> trimmed(line)[i] != '=' {
        lemma_first_position_is(trimmed(line), '=', trimmed(line).len() as int);
    }
}

/// There is a configuration exactly if the file is missing or can be read to its end
/// without a wrong line: then it is the baked-in one with the file on top. There is
/// never half a configuration, and the error tells reading from parsing.
pub proof fn configuration_is_whole_or_none(content: Seq<char>, message: Seq<char>)
    ensures
        loaded_config(ConfigSourceView::Missing) == Ok::<BuildConfigView, ConfigErrorView>(
            BuildConfigView::baked_in(),
        ),
        loaded_config(ConfigSourceView::Unreadable { message }) matches Err(e) && e.message
            == "Failed to read "@ + BUILD_CONFIG_FILE@ && e.causes == seq![message],
        with_file(BuildConfigView::baked_in(), content).1 is Ok ==> loaded_config(
            ConfigSourceView::Content(content),
        ) == Ok::<BuildConfigView, ConfigErrorView>(
            with_file(BuildConfigView::baked_in(), content).0,
        ),
        with_file(BuildConfigView::baked_in(), content).1 matches Err(problem) ==> {
            &&& loaded_config(ConfigSourceView::Content(content)) matches Err(e) && e.message
                == "Failed to parse "@ + BUILD_CONFIG_FILE@ && e.causes == seq![problem.message]
                + problem.causes
        },
{
    assert(seq![message] + Seq::<Seq<char>>::empty() =~= seq![message]);
}

/// Something is wrong with a file exactly if a line is wrong: one that is malformed,
/// or one that gives a size which is no number. The first such line is named, and the
/// lines before it are applied.
pub proof fn first_wrong_line_is_named(config: BuildConfigView, content: Seq<char>, at: int)
    requires
        0 <= at < text_lines(content).len(),
        with_lines(config, text_lines(content), at).1 is Ok,
    ensures
        ({
            let lines = text_lines(content);
            let before = with_lines(config, lines, at).0;
            &&& line_of(lines[at]) is Malformed ==> with_file(config, content).0 == before && (
            with_file(config, content).1 matches Err(e) && e.causes.len() == 0 && (
            "line "@ + decimal((at + 1) as nat) + ":"@).is_prefix_of(e.message))
            &&& match line_of(lines[at]) {
                LineView::Entry(key, value) => with_entry(before, key, value) is None ==> {
                    &&& with_file(config, content).0 == before
                    &&& with_file(config, content).1 matches Err(e) && e.causes == seq![
                        number_error_text(value),
                    ] && ("line "@ + decimal((at + 1) as nat) + ":"@).is_prefix_of(e.message)
                        && has_text(e.message, key)
                },
                _ => true,
            }
        }),
{
    let lines = text_lines(content);
    let before = with_lines(config, lines, at).0;
    let n = lines.len() as int;
    let start = "line "@ + decimal((at + 1) as nat) + ":"@;
    match line_of(lines[at]) {
        LineView::Malformed => {
            lemma_error_stays(config, lines, at + 1, n);
            let m = malformed_line(at + 1, lines[at]).message;
            reveal_strlit(": expected KEY=VALUE, got ");
            reveal_strlit(":");
            assert(m.subrange(0, start.len() as int) =~= start);
        },
        LineView::Entry(key, value) => {
            if with_entry(before, key, value) is None {
                lemma_error_stays(config, lines, at + 1, n);
                let m = not_a_number(at + 1, key, value).message;
                reveal_strlit(": ");
                reveal_strlit(":");
                assert(m.subrange(0, start.len() as int) =~= start);
                let head = "line "@ + decimal((at + 1) as nat) + ": "@;
                let rest = " must be a number, got "@ + debug_quoted(value);
                assert(m =~= head + key + rest);
                lemma_has_part(head, key, rest);
                assert(seq![number_error_text(value)] + Seq::<Seq<char>>::empty() =~= seq![
                    number_error_text(value),
                ]);
            }
        },
        _ => {},
    }
}

} // verus!
