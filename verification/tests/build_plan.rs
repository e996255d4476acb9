use cxx_dlang::build_plan::{
    ldc2_compile_args, ldc2_search_order, ldc2_triple_for, lib_dir_candidates, link_libs,
    mattr_from_target_features, object_file_name, pick_dlang_toolchain, pick_lib_dir,
    select_mattr, select_mcpu, select_mtriple, target_cpu_from_encoded_rustflags, DlangEntry,
    Ldc2Probe, ProbedDir, ScannedDir,
};

fn probe_text(p: &Ldc2Probe) -> String {
    match p {
        Ldc2Probe::File(s) => format!("file:{s}"),
        Ldc2Probe::InDir(s) => format!("dir:{s}"),
        Ldc2Probe::SearchPath => "path".to_string(),
        Ldc2Probe::DlangHome => "dlang".to_string(),
    }
}

fn probed(name: &str, has_runtime: bool) -> ProbedDir {
    ProbedDir { name: name.to_string(), has_runtime }
}

fn scanned(in_lib: bool, name: &str, has_runtime: bool) -> ScannedDir {
    ScannedDir { in_lib, name: name.to_string(), has_runtime }
}

#[test]
fn triple_table_entries() {
    assert_eq!(ldc2_triple_for("x86_64-unknown-linux-gnu").as_deref(), Some("x86_64-linux-gnu"));
    assert_eq!(ldc2_triple_for("aarch64-apple-darwin").as_deref(), Some("arm64-apple-macos11.0"));
    assert_eq!(
        ldc2_triple_for("armv7-linux-androideabi").as_deref(),
        Some("armv7a-unknown-linux-androideabi")
    );
    assert_eq!(
        ldc2_triple_for("wasm32-unknown-unknown").as_deref(),
        Some("wasm32-unknown-unknown-webassembly")
    );
    assert_eq!(ldc2_triple_for("riscv64gc-unknown-linux-gnu"), None);
    assert_eq!(ldc2_triple_for("x86_64-unknown-linux-gn"), None);
}

#[test]
fn mtriple_native_build_has_none() {
    let t = "x86_64-unknown-linux-gnu";
    assert!(matches!(select_mtriple(t, t, None), Ok(None)));
}

#[test]
fn mtriple_cross_build_uses_table() {
    let r = select_mtriple("aarch64-unknown-linux-gnu", "x86_64-unknown-linux-gnu", None);
    assert_eq!(r.ok().flatten().as_deref(), Some("aarch64-linux-gnu"));
}

#[test]
fn mtriple_unknown_cross_target_is_error() {
    match select_mtriple("riscv64gc-unknown-linux-gnu", "x86_64-unknown-linux-gnu", None) {
        Err(e) => assert_eq!(e.target, "riscv64gc-unknown-linux-gnu"),
        Ok(_) => panic!("expected an error"),
    }
}

#[test]
fn mtriple_override_wins_even_for_unknown_target() {
    let r = select_mtriple("riscv64gc-unknown-linux-gnu", "x86_64-unknown-linux-gnu", Some("riscv64-linux-gnu"));
    assert_eq!(r.ok().flatten().as_deref(), Some("riscv64-linux-gnu"));
    let t = "x86_64-unknown-linux-gnu";
    let r = select_mtriple(t, t, Some("x86_64-linux-musl"));
    assert_eq!(r.ok().flatten().as_deref(), Some("x86_64-linux-musl"));
}

#[test]
fn cpu_joined_form() {
    assert_eq!(
        target_cpu_from_encoded_rustflags("-Copt-level=3\x1f-Ctarget-cpu=native").as_deref(),
        Some("native")
    );
}

#[test]
fn cpu_split_form() {
    assert_eq!(
        target_cpu_from_encoded_rustflags("-C\x1ftarget-cpu=skylake\x1f-g").as_deref(),
        Some("skylake")
    );
}

#[test]
fn cpu_split_form_consumes_next_field() {
    // `-C opt-level=3` takes its argument with it; the later pair still counts.
    assert_eq!(
        target_cpu_from_encoded_rustflags("-C\x1fopt-level=3\x1f-C\x1ftarget-cpu=znver3").as_deref(),
        Some("znver3")
    );
    // A `-C` swallows the next field even when that field looks like a flag.
    assert_eq!(
        target_cpu_from_encoded_rustflags("-C\x1f-Ctarget-cpu=x").as_deref(),
        None
    );
}

#[test]
fn cpu_absent() {
    assert_eq!(target_cpu_from_encoded_rustflags(""), None);
    assert_eq!(target_cpu_from_encoded_rustflags("-C"), None);
    assert_eq!(target_cpu_from_encoded_rustflags("-Copt-level=2\x1f--cfg\x1ffoo"), None);
}

#[test]
fn cpu_first_one_wins() {
    assert_eq!(
        target_cpu_from_encoded_rustflags("-Ctarget-cpu=a\x1f-Ctarget-cpu=b").as_deref(),
        Some("a")
    );
    assert_eq!(target_cpu_from_encoded_rustflags("-Ctarget-cpu=").as_deref(), Some(""));
}

#[test]
fn mattr_marks_and_joins_features() {
    assert_eq!(mattr_from_target_features("sse2,avx,fxsr").as_deref(), Some("+sse2,+avx,+fxsr"));
    assert_eq!(mattr_from_target_features(",sse2,,avx,").as_deref(), Some("+sse2,+avx"));
    assert_eq!(mattr_from_target_features("neon").as_deref(), Some("+neon"));
}

#[test]
fn mattr_empty_lists() {
    assert_eq!(mattr_from_target_features(""), None);
    assert_eq!(mattr_from_target_features(",,,"), None);
}

#[test]
fn overrides_win_for_mattr_and_mcpu() {
    assert_eq!(select_mattr(Some("-avx"), Some("sse2")).as_deref(), Some("-avx"));
    assert_eq!(select_mattr(None, Some("sse2")).as_deref(), Some("+sse2"));
    assert_eq!(select_mattr(None, None), None);
    assert_eq!(select_mcpu(Some("generic"), Some("-Ctarget-cpu=native")).as_deref(), Some("generic"));
    assert_eq!(select_mcpu(None, Some("-Ctarget-cpu=native")).as_deref(), Some("native"));
    assert_eq!(select_mcpu(None, None), None);
}

#[test]
fn object_name_from_stem() {
    assert_eq!(object_file_name("cxx_d"), "cxx_d.o");
}

#[test]
fn compile_args_full() {
    let args = ldc2_compile_args(
        "/out/cxx_d.o",
        "d/cxx_d.d",
        Some("aarch64-linux-gnu"),
        Some("cortex-a72"),
        Some("+neon"),
    );
    assert_eq!(
        args,
        vec![
            "--edition=2025",
            "--preview=safer",
            "--preview=dip1000",
            "--preview=nosharedaccess",
            "--preview=fixImmutableConv",
            "--preview=systemVariables",
            "--extern-std=c++17",
            "-relocation-model=pic",
            "-c",
            "-of=/out/cxx_d.o",
            "-Id",
            "--mtriple=aarch64-linux-gnu",
            "-mcpu=cortex-a72",
            "-mattr=+neon",
            "d/cxx_d.d",
        ]
    );
}

#[test]
fn compile_args_native() {
    let args = ldc2_compile_args("o.o", "d/a.d", None, None, None);
    assert_eq!(args.len(), 12);
    assert_eq!(args[9], "-of=o.o");
    assert_eq!(args[10], "-Id");
    assert_eq!(args[11], "d/a.d");
    let args = ldc2_compile_args("o.o", "d/a.d", None, None, Some("+sse2"));
    assert_eq!(args[11], "-mattr=+sse2");
    assert_eq!(args[12], "d/a.d");
}

#[test]
fn lib_dir_candidates_by_target() {
    assert_eq!(
        lib_dir_candidates("aarch64", "macos"),
        vec!["lib-macos-arm64", "lib-arm64-macos", "lib-arm64", "lib64", "lib"]
    );
    assert_eq!(
        lib_dir_candidates("x86", "windows"),
        vec!["lib-windows-i686", "lib-i686-windows", "lib-i686", "lib32", "lib"]
    );
    assert_eq!(
        lib_dir_candidates("wasm32", "unknown"),
        vec!["lib-unknown-wasm32", "lib-wasm32-unknown", "lib-wasm32", "lib"]
    );
    assert_eq!(lib_dir_candidates("arm", ""), vec!["lib-arm", "lib32", "lib"]);
    assert_eq!(lib_dir_candidates("", "linux"), vec!["lib"]);
}

#[test]
fn lib_dir_first_present_candidate_wins() {
    let c = vec![probed("lib-linux-x86_64", false), probed("lib-x86_64", true), probed("lib", true)];
    let s = vec![scanned(false, "lib-zzz", true)];
    assert_eq!(pick_lib_dir(&c, &s), vec!["lib-x86_64"]);
}

#[test]
fn lib_dir_greatest_scanned_path() {
    let c = vec![probed("lib64", false), probed("lib", false)];
    // Path order goes by component: `lib/zzz` sorts before `lib-arm64`.
    let s = vec![
        scanned(true, "zzz", true),
        scanned(false, "lib-arm64", true),
        scanned(false, "lib-x86_64", false),
        scanned(false, "other", true),
    ];
    assert_eq!(pick_lib_dir(&c, &s), vec!["lib-arm64"]);
    let s = vec![scanned(true, "libA", true), scanned(true, "libB", true)];
    assert_eq!(pick_lib_dir(&c, &s), vec!["lib", "libB"]);
}

#[test]
fn lib_dir_falls_back_to_lib() {
    let c = vec![probed("lib", false)];
    let s = vec![scanned(false, "runtime", true), scanned(false, "lib-x", false)];
    assert_eq!(pick_lib_dir(&c, &s), vec!["lib"]);
    assert_eq!(pick_lib_dir(&vec![], &vec![]), vec!["lib"]);
}

#[test]
fn link_libs_linux_and_others() {
    assert_eq!(
        link_libs("linux"),
        vec!["static=druntime-ldc", "static=phobos2-ldc", "dylib=pthread", "dylib=m", "dylib=dl"]
    );
    assert_eq!(link_libs("macos"), vec!["static=druntime-ldc", "static=phobos2-ldc"]);
    assert_eq!(link_libs("android"), vec!["static=druntime-ldc", "static=phobos2-ldc"]);
}

#[test]
fn ldc2_search_order_priority() {
    let all: Vec<String> = ldc2_search_order(Some("/opt/ldc/bin/ldc2"), Some("/opt/ldc2/bin"))
        .iter()
        .map(probe_text)
        .collect();
    assert_eq!(
        all,
        vec![
            "file:/opt/ldc/bin/ldc2",
            "dir:/opt/ldc/bin/ldc2",
            "file:/opt/ldc2/bin",
            "dir:/opt/ldc2/bin",
            "path",
            "dlang",
        ]
    );
    let none: Vec<String> = ldc2_search_order(None, None).iter().map(probe_text).collect();
    assert_eq!(none, vec!["path", "dlang"]);
    let only_path: Vec<String> =
        ldc2_search_order(None, Some("/x")).iter().map(probe_text).collect();
    assert_eq!(only_path, vec!["file:/x", "dir:/x", "path", "dlang"]);
}

#[test]
fn dlang_newest_toolchain() {
    let entries = vec![
        DlangEntry { name: "ldc2-1.40.0".to_string(), has_ldc2: true },
        DlangEntry { name: "ldc2-1.42.0".to_string(), has_ldc2: true },
        DlangEntry { name: "ldc2-1.43.0".to_string(), has_ldc2: false },
        DlangEntry { name: "dmd-2.110.0".to_string(), has_ldc2: true },
    ];
    assert_eq!(pick_dlang_toolchain(&entries).as_deref(), Some("ldc2-1.42.0"));
    let none = vec![DlangEntry { name: "dmd-2.110.0".to_string(), has_ldc2: true }];
    assert_eq!(pick_dlang_toolchain(&none), None);
}
