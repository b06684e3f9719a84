use husako::bench::{
    commit_label, cpu_label, cpu_model, format_datetime, generate_report, generate_summary,
    manifest_version, report_args, BenchFigures, BenchGroup, HostFacts, Meta,
};

#[test]
fn datetime_of_epoch_seconds() {
    assert_eq!(format_datetime(0), "1970-01-01 00:00:00");
    assert_eq!(format_datetime(951_782_400), "2000-02-29 00:00:00");
    assert_eq!(format_datetime(1_700_000_000), "2023-11-14 22:13:20");
}

#[test]
fn header_lines() {
    let meta = Meta {
        datetime: "2024-01-01 00:00:00".to_string(),
        commit: "abc123".to_string(),
        version: "0.1.0".to_string(),
        platform: "x86_64-linux".to_string(),
        cpu: "Xeon (8 cores)".to_string(),
        memory: None,
        runner: Some("GitHub Actions".to_string()),
    };
    let mut out = "# Report\n".to_string();
    meta.write_header(&mut out);
    assert_eq!(
        out,
        "# Report\n> Generated: 2024-01-01 00:00:00\n> Commit: abc123\n> Version: husako v0.1.0\n> Platform: x86_64-linux\n> CPU: Xeon (8 cores)\n> Runner: GitHub Actions\n"
    );
}

#[test]
fn cpu_and_commit_labels() {
    assert_eq!(cpu_label("Xeon", 8), "Xeon (8 cores)");
    assert_eq!(cpu_label("Xeon", 0), "Xeon");
    assert_eq!(commit_label(Some("abc123\n".to_string()), false), "abc123");
    assert_eq!(commit_label(Some("abc123\n".to_string()), true), "abc123-dirty");
    assert_eq!(commit_label(Some("  \n".to_string()), false), "unknown");
    assert_eq!(commit_label(None, true), "unknown-dirty");
}

#[test]
fn version_from_manifest_text() {
    let manifest = "[package]\nname = \"husako\"\n  version = \"0.4.2\"\nedition = \"2021\"\n";
    assert_eq!(manifest_version(Some(manifest)), "0.4.2");
    assert_eq!(manifest_version(Some("[package]\nversion.workspace = true\n")), "unknown");
    assert_eq!(manifest_version(Some("name = \"x\"\n")), "unknown");
    assert_eq!(manifest_version(None), "unknown");
}

#[test]
fn cpu_model_from_cpuinfo() {
    let info = "processor\t: 0\nmodel name\t: Intel(R) Xeon(R) CPU @ 2.20GHz\nflags\t: fpu\n";
    assert_eq!(cpu_model(info), Some("Intel(R) Xeon(R) CPU @ 2.20GHz".to_string()));
    assert_eq!(cpu_model("processor\t: 0\n"), None);
    assert_eq!(cpu_model("model name without colon\n"), None);
}

#[test]
fn report_arguments() {
    let args = |v: &[&str]| v.iter().map(|s| s.to_string()).collect::<Vec<String>>();
    assert_eq!(
        report_args(&args(&["report", "--criterion-dir", "/c", "--output-dir", "/o"])),
        (Some("/c".to_string()), Some("/o".to_string()))
    );
    assert_eq!(report_args(&args(&["report"])), (None, None));
    assert_eq!(report_args(&args(&["report", "--output-dir"])), (None, None));
    assert_eq!(
        report_args(&args(&["report", "x", "--criterion-dir", "/a", "--criterion-dir", "/b"])),
        (Some("/b".to_string()), None)
    );
}

fn host() -> HostFacts {
    HostFacts {
        now_secs: 1_700_000_000,
        rev: Some("abc123\n".to_string()),
        dirty: true,
        manifest: Some("[package]\nversion = \"0.4.2\"\n".to_string()),
        arch: "x86_64".to_string(),
        os: "linux".to_string(),
        cpu_name: "Xeon".to_string(),
        cores: 4,
        memory: Some("16 GiB".to_string()),
        github_actions: false,
    }
}

#[test]
fn collect_meta_from_host_facts() {
    let meta = Meta::collect(&host());
    assert_eq!(meta.datetime, "2023-11-14 22:13:20");
    assert_eq!(meta.commit, "abc123-dirty");
    assert_eq!(meta.version, "0.4.2");
    assert_eq!(meta.platform, "x86_64-linux");
    assert_eq!(meta.cpu, "Xeon (4 cores)");
    assert_eq!(meta.memory.as_deref(), Some("16 GiB"));
    assert_eq!(meta.runner, None);
    let mut ci = host();
    ci.github_actions = true;
    assert_eq!(Meta::collect(&ci).runner.as_deref(), Some("GitHub Actions"));
}

fn figures(mean: &str, sd: &str, slope: Option<&str>) -> BenchFigures {
    BenchFigures {
        mean: mean.to_string(),
        mean_lower: "1.00 ms".to_string(),
        mean_upper: "1.20 ms".to_string(),
        std_dev: sd.to_string(),
        slope: slope.map(|s| s.to_string()),
    }
}

fn small_meta() -> Meta {
    Meta {
        datetime: "D".to_string(),
        commit: "C".to_string(),
        version: "V".to_string(),
        platform: "P".to_string(),
        cpu: "U".to_string(),
        memory: None,
        runner: None,
    }
}

#[test]
fn summary_and_report_texts() {
    let data: Vec<BenchGroup> = vec![(
        "render".to_string(),
        vec![
            ("small".to_string(), Some(figures("1.10 ms", "50.000 µs", Some("1.09 ms")))),
            ("broken".to_string(), None),
        ],
    )];
    let header = "> Generated: D\n> Commit: C\n> Version: husako vV\n> Platform: P\n> CPU: U\n";
    assert_eq!(
        generate_summary(&small_meta(), &data),
        format!(
            "# Benchmark Summary\n\n{header}\n| Group | Benchmark | Mean | ± Std Dev |\n|-------|-----------|------|-----------|\n| render | small | 1.10 ms | ± 50.000 µs |\n"
        )
    );
    assert_eq!(
        generate_report(&small_meta(), &data),
        format!(
            "# Benchmark Report\n\n{header}\n## render\n\n### small\n- **Mean**: 1.10 ms (1.00 ms – 1.20 ms, 95% CI)\n- **Std Dev**: 50.000 µs\n- **Slope**: 1.09 ms\n\n### broken\n- *(no data)*\n"
        )
    );
}
