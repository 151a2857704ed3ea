use xcp_orchestrator::build_config::{
    apply_build_config, generate_kickstart, generate_packer_template, BuildConfig, ConfigSource,
};

#[test]
fn build_config_overlays_known_keys() {
    let mut config = BuildConfig::default();
    apply_build_config(
        &mut config,
        r#"
# XCP-ng Hypervisor Connection
XCPNG_IP="192.168.7.42"
XCPNG_USER=admin
SR_NAME='NVMe storage'
VM_NETWORK_NAME="LAN"

VM_DISK_SIZE_MB=20000
VM_MEMORY_MB="4096"
"#,
    )
    .unwrap();
    assert_eq!(config.xcpng_ip, "192.168.7.42");
    assert_eq!(config.xcpng_user, "admin");
    assert_eq!(config.sr_name, "NVMe storage");
    assert_eq!(config.vm_network_name, "LAN");
    assert_eq!(config.vm_disk_size_mb, 20000);
    assert_eq!(config.vm_memory_mb, 4096);
    // Untouched keys keep their defaults
    assert_eq!(config.vm_name, "xoa-almalinux");
}

#[test]
fn build_config_empty_file_keeps_defaults() {
    let mut config = BuildConfig::default();
    apply_build_config(&mut config, "\n# comments only\n").unwrap();
    assert_eq!(config.xcpng_ip, BuildConfig::default().xcpng_ip);
}

#[test]
fn build_config_unknown_key_is_ignored() {
    let mut config = BuildConfig::default();
    apply_build_config(&mut config, "DEBIAN_ISO_URL=\"http://example.com\"\nVM_NAME=xoa\n")
        .unwrap();
    assert_eq!(config.vm_name, "xoa");
}

// A file that spells the defaults out.
const SAMPLE: &str = r#"# XCP-ng Hypervisor Connection
XCPNG_IP="192.168.1.10"
XCPNG_USER="root"
SR_NAME="Local storage"
VM_NETWORK_NAME="Pool-wide network associated with eth0"

# Target VM Hardware Specs
VM_NAME="xoa-almalinux"
VM_DISK_SIZE_MB=10000
VM_MEMORY_MB=2048

# Installation Media Source
ALMALINUX_ISO_URL="https://repo.almalinux.org/almalinux/9/isos/x86_64/AlmaLinux-9-latest-x86_64-minimal.iso"

# Guest Utilities
XE_GUEST_UTILITIES_URL="https://github.com/xenserver/xe-guest-utilities/releases/download/v10.0.0/xe-guest-utilities-10.0.0-1.x86_64.rpm"
XE_GUEST_UTILITIES_XENSTORE_URL="https://github.com/xenserver/xe-guest-utilities/releases/download/v10.0.0/xe-guest-utilities-xenstore-10.0.0-1.x86_64.rpm"
"#;

#[test]
fn shipped_sample_parses_and_matches_defaults() {
    let mut config = BuildConfig::default();
    apply_build_config(&mut config, SAMPLE).unwrap();
    let d = BuildConfig::default();
    assert_eq!(config.xcpng_ip, d.xcpng_ip);
    assert_eq!(config.xcpng_user, d.xcpng_user);
    assert_eq!(config.sr_name, d.sr_name);
    assert_eq!(config.vm_network_name, d.vm_network_name);
    assert_eq!(config.vm_name, d.vm_name);
    assert_eq!(config.vm_disk_size_mb, d.vm_disk_size_mb);
    assert_eq!(config.vm_memory_mb, d.vm_memory_mb);
    assert_eq!(config.almalinux_iso_url, d.almalinux_iso_url);
    assert_eq!(config.xe_guest_utilities_url, d.xe_guest_utilities_url);
    assert_eq!(config.xe_guest_utilities_xenstore_url, d.xe_guest_utilities_xenstore_url);
}

#[test]
fn build_config_rejects_garbage() {
    let mut config = BuildConfig::default();
    assert!(apply_build_config(&mut config, "not a key value line\n").is_err());
    assert!(apply_build_config(&mut config, "VM_MEMORY_MB=lots\n").is_err());
}

#[test]
fn errors_name_the_line_and_quote_it() {
    let mut config = BuildConfig::default();
    let e = apply_build_config(&mut config, "\nVM_NAME=xoa\n  not \"one\"\n").unwrap_err();
    assert_eq!(e.message, "line 3: expected KEY=VALUE, got \"  not \\\"one\\\"\"");
    assert!(e.causes.is_empty());
    // The lines before the wrong one are applied.
    assert_eq!(config.vm_name, "xoa");
    let e = apply_build_config(&mut config, "VM_NAME=later\nVM_MEMORY_MB='4 GB'\nVM_NAME=never")
        .unwrap_err();
    assert_eq!(e.message, "line 2: VM_MEMORY_MB must be a number, got \"4 GB\"");
    assert_eq!(e.causes, vec!["invalid digit found in string"]);
    assert_eq!(config.vm_name, "later");
    assert_eq!(config.vm_memory_mb, 2048);
}

#[test]
fn values_may_hold_equals_and_quotes() {
    let mut config = BuildConfig::default();
    apply_build_config(
        &mut config,
        "XCPNG_IP = a=b \nXCPNG_USER=\"\nSR_NAME=\"it's\"\nVM_NAME='\"x\"'\nVM_NETWORK_NAME=\"mixed'\r\n",
    )
    .unwrap();
    assert_eq!(config.xcpng_ip, "a=b");
    assert_eq!(config.xcpng_user, "\"");
    assert_eq!(config.sr_name, "it's");
    assert_eq!(config.vm_name, "\"x\"");
    assert_eq!(config.vm_network_name, "\"mixed'");
}

#[test]
fn later_lines_win_and_secrets_stay_out() {
    let mut config = BuildConfig::default();
    config.xcpng_password = "secret".to_string();
    config.almalinux_root_password = "root".to_string();
    apply_build_config(
        &mut config,
        "VM_NAME=a\nVM_NAME=b\nXCPNG_PASSWORD=x\nALMALINUX_ROOT_PASSWORD=y\n",
    )
    .unwrap();
    assert_eq!(config.vm_name, "b");
    assert_eq!(config.xcpng_password, "secret");
    assert_eq!(config.almalinux_root_password, "root");
}

#[test]
fn kickstart_holds_the_root_password() {
    let mut config = BuildConfig::default();
    config.almalinux_root_password = "hunter2".to_string();
    let kickstart = generate_kickstart(&config);
    assert!(kickstart.starts_with(
        "# AlmaLinux 9 Minimal Kickstart \u{2014} XOA HomeLab Edition\nlang en_US.UTF-8\n"
    ));
    assert!(kickstart.contains("\nrootpw --plaintext hunter2\ntimezone Asia/Tokyo --utc\n"));
    assert!(kickstart.ends_with("\nusermod -aG wheel xo\n%end\n"));
    assert_eq!(kickstart.lines().count(), 51);
}

#[test]
fn packer_template_is_json_with_the_values() {
    let mut config = BuildConfig::default();
    config.xcpng_password = "pw".to_string();
    config.almalinux_root_password = "root".to_string();
    config.almalinux_iso_checksum = "sha256:abc".to_string();
    config.xoa_hl_rpm_url = "https://example.com/xoa.rpm".to_string();
    let template = generate_packer_template(&config);
    let json: serde_json::Value = serde_json::from_str(&template).unwrap();
    let builder = &json["builders"][0];
    assert_eq!(builder["type"], "xenserver-iso");
    assert_eq!(builder["remote_host"], "192.168.1.10");
    assert_eq!(builder["remote_username"], "root");
    assert_eq!(builder["remote_password"], "pw");
    assert_eq!(builder["iso_url"].as_str(), Some(config.almalinux_iso_url.as_str()));
    assert_eq!(builder["iso_checksum"], "sha256:abc");
    assert_eq!(builder["sr_name"], "Local storage");
    assert_eq!(builder["vm_name"], "xoa-almalinux");
    assert_eq!(builder["vm_description"], "XOA HomeLab Edition \u{2014} AlmaLinux 9");
    assert_eq!(builder["disk_size"], 10000);
    assert_eq!(builder["vm_memory"], 2048);
    assert_eq!(builder["http_directory"], ".");
    assert_eq!(builder["network_names"][0], "Pool-wide network associated with eth0");
    assert_eq!(
        builder["boot_command"][1],
        "linux inst.ks=http://{{ .HTTPIP }}:{{ .HTTPPort }}/inst.ks inst.text<enter>"
    );
    assert_eq!(builder["ssh_password"], "root");
    assert_eq!(
        builder["output_directory"],
        "/var/lib/xcp-hl-orchestrator/output/xoa-hl"
    );
    let provisioners = json["provisioners"].as_array().unwrap();
    assert_eq!(provisioners.len(), 10);
    assert_eq!(
        provisioners[3]["inline"][0],
        "curl -fsSL 'https://example.com/xoa.rpm' -o /tmp/xoa-hl.rpm"
    );
    assert_eq!(
        provisioners[1]["inline"][0].as_str().unwrap(),
        format!(
            "wget -q {} -O /tmp/xe-guest-utilities-xenstore.rpm",
            config.xe_guest_utilities_xenstore_url
        )
    );
    assert_eq!(
        provisioners[1]["inline"][1].as_str().unwrap(),
        format!("wget -q {} -O /tmp/xe-guest-utilities.rpm", config.xe_guest_utilities_url)
    );
}

#[test]
fn a_missing_file_means_the_defaults() {
    let config = BuildConfig::load(ConfigSource::Missing).unwrap();
    assert_eq!(config.xcpng_ip, "192.168.1.10");
    assert_eq!(config.vm_memory_mb, 2048);
}

#[test]
fn a_file_overlays_the_defaults() {
    let source = ConfigSource::Content("XCPNG_IP=10.0.0.1\nXCPNG_IP=10.0.0.2\n".to_string());
    let config = BuildConfig::load(source).unwrap();
    // The last line of a key counts, and an unset key keeps its value.
    assert_eq!(config.xcpng_ip, "10.0.0.2");
    assert_eq!(config.xcpng_user, "root");
}

#[test]
fn a_bad_file_is_no_configuration() {
    let unreadable = ConfigSource::Unreadable { message: "permission denied".to_string() };
    let e = BuildConfig::load(unreadable).unwrap_err();
    assert_eq!(e.message, "Failed to read /etc/xcp-orchestrator/build.config");
    assert_eq!(e.causes, vec!["permission denied"]);
    let wrong = ConfigSource::Content("XCPNG_IP=10.0.0.1\nVM_MEMORY_MB=lots\n".to_string());
    let e = BuildConfig::load(wrong).unwrap_err();
    assert_eq!(e.message, "Failed to parse /etc/xcp-orchestrator/build.config");
    assert_eq!(
        e.causes,
        vec![
            "line 2: VM_MEMORY_MB must be a number, got \"lots\"",
            "invalid digit found in string",
        ]
    );
}

#[test]
fn numbers_are_read_as_the_standard_library_reads_them() {
    for value in
        ["0", "+7", "007", "4294967295", "4294967296", "-1", "", "+", "++1", "1_000", "0x10", "٣"]
    {
        let mut config = BuildConfig::default();
        let line = format!("VM_DISK_SIZE_MB={}", value);
        match (apply_build_config(&mut config, &line), value.parse::<u32>()) {
            (Ok(()), Ok(n)) => assert_eq!(config.vm_disk_size_mb, n),
            (Err(e), Err(why)) => {
                assert_eq!(
                    e.message,
                    format!("line 1: VM_DISK_SIZE_MB must be a number, got {:?}", value)
                );
                assert_eq!(e.causes, vec![why.to_string()]);
                assert_eq!(config.vm_disk_size_mb, 10000);
            }
            (ours, theirs) => panic!("{:?}: {:?}, {:?}", value, ours, theirs),
        }
    }
}

#[test]
fn a_malformed_line_is_the_only_cause() {
    let e = BuildConfig::load(ConfigSource::Content("\nnonsense\n".to_string())).unwrap_err();
    assert_eq!(e.message, "Failed to parse /etc/xcp-orchestrator/build.config");
    assert_eq!(e.causes, vec!["line 2: expected KEY=VALUE, got \"nonsense\""]);
}

fn shown(config: &BuildConfig) -> String {
    format!("{:?}", config)
}

#[test]
fn applying_a_file_again_changes_nothing() {
    for content in ["VM_NAME=a\nVM_NAME=b\nVM_MEMORY_MB=1\n", "XCPNG_IP=x\nnonsense\nVM_NAME=y\n"] {
        let mut config = BuildConfig::default();
        let first = apply_build_config(&mut config, content).map_err(|e| e.message);
        let once = shown(&config);
        let second = apply_build_config(&mut config, content).map_err(|e| e.message);
        assert_eq!(first, second);
        assert_eq!(shown(&config), once);
    }
}

#[test]
fn applying_both_texts_is_applying_them_in_order() {
    let (a, b) = ("VM_NAME=a\nXCPNG_IP=x\n", "VM_NAME=b\nVM_MEMORY_MB=9");
    let mut whole = BuildConfig::default();
    apply_build_config(&mut whole, &format!("{}{}", a, b)).unwrap();
    let mut parts = BuildConfig::default();
    apply_build_config(&mut parts, a).unwrap();
    apply_build_config(&mut parts, b).unwrap();
    assert_eq!(shown(&whole), shown(&parts));
    // After a wrong line nothing counts.
    let mut wrong = BuildConfig::default();
    let e = apply_build_config(&mut wrong, &format!("XCPNG_IP=x\nnonsense\n{}", b)).unwrap_err();
    assert_eq!(e.message, "line 2: expected KEY=VALUE, got \"nonsense\"");
    assert_eq!(wrong.vm_name, "xoa-almalinux");
}
