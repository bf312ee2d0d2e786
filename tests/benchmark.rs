use bench_harness::benchmark::{Benchmark, ExtStatus, FileName};
use bench_harness::command::Invocation;
use bench_harness::config::Config;
use bench_harness::error::Error;
use bench_harness::lang::BenchmarkLanguage;
use bench_harness::paths::Arch;
use bench_harness::plan::Step;
use bench_harness::suite::{Listing, Next, SuiteEntry};
use bench_harness::text::{decimal_string, extension};

fn listing(names: &[&str]) -> Vec<FileName> {
    names.iter().map(|n| FileName::Text(n.to_string())).collect()
}

fn strings(v: &[&str]) -> Vec<String> {
    v.iter().map(|s| s.to_string()).collect()
}

fn bench(name: &str, files: &[&str], exclude: &[BenchmarkLanguage], config: Config) -> Benchmark {
    Benchmark::new(name, exclude, &listing(files), config).unwrap()
}

fn config(test_args: &[&str], args: &[&str], runs: u64, heap_size: Option<u64>) -> Config {
    Config { test_args: strings(test_args), args: strings(args), runs, heap_size }
}

fn sorted(mut v: Vec<BenchmarkLanguage>) -> Vec<BenchmarkLanguage> {
    v.sort_by_key(|l| format!("{:?}", l));
    v
}

fn args_of(c: &Invocation) -> Vec<&str> {
    c.args.iter().map(|a| a.as_str()).collect()
}

#[test]
fn discover_excludes_go() {
    let b = bench("bench", &["bench.args", "bench.rs", "bench.go"], &[BenchmarkLanguage::Go], Config::default());
    assert_eq!(b.languages, vec![BenchmarkLanguage::Rust]);
    assert_eq!(b.name, "bench");
    assert_eq!(b.base_path, "benchmarks/bench");
}

#[test]
fn discover_finds_every_known_extension() {
    let b = bench(
        "fib",
        &["fib.rs", "fib.go", "fib.kk", "fib.args", "README", ".hidden", "notes.txt", "fib.sml"],
        &[],
        Config::default(),
    );
    assert_eq!(
        sorted(b.languages),
        sorted(vec![
            BenchmarkLanguage::Rust,
            BenchmarkLanguage::Go,
            BenchmarkLanguage::Koka,
            BenchmarkLanguage::SmlNj
        ])
    );
}

#[test]
fn discover_lists_a_language_once() {
    let b = bench("fib", &["fib.rs", "other.rs"], &[], Config::default());
    assert_eq!(b.languages, vec![BenchmarkLanguage::Rust]);
}

#[test]
fn discover_empty_directory() {
    let b = bench("fib", &[], &[], Config::default());
    assert!(b.languages.is_empty());
}

#[test]
fn discover_rejects_extension_that_is_not_text() {
    let files = vec![FileName::Text("fib.rs".to_string()), FileName::NotText(ExtStatus::NotText)];
    let r = Benchmark::new("fib", &[], &files, Config::default());
    match r {
        Err(Error::PathAccess { path, .. }) => assert_eq!(path, "benchmarks/fib"),
        _ => panic!("expected a path access error"),
    }
}

#[test]
fn discover_accepts_name_that_is_not_text_with_text_extension() {
    let files = vec![
        FileName::NotText(ExtStatus::Text("go".to_string())),
        FileName::NotText(ExtStatus::Missing),
        FileName::Text("fib.rs".to_string()),
    ];
    let b = Benchmark::new("fib", &[], &files, Config::default()).unwrap();
    assert_eq!(b.languages, vec![BenchmarkLanguage::Go, BenchmarkLanguage::Rust]);
}

#[test]
fn discover_keeps_listing_order() {
    let b = bench("fib", &["a.go", "b.rs", "c.go", "fib.args", "d.kk"], &[], Config::default());
    assert_eq!(
        b.languages,
        vec![BenchmarkLanguage::Go, BenchmarkLanguage::Rust, BenchmarkLanguage::Koka]
    );
}

#[test]
fn extension_follows_last_dot() {
    assert_eq!(extension("a.b.rs"), Some("rs"));
    assert_eq!(extension("bench.effekt"), Some("effekt"));
    assert_eq!(extension(".hidden"), None);
    assert_eq!(extension("noext"), None);
    assert_eq!(extension("foo."), Some(""));
    assert_eq!(extension(".a.b"), Some("b"));
}

#[test]
fn languages_round_trip_through_extensions() {
    let all = [
        BenchmarkLanguage::Scc,
        BenchmarkLanguage::Rust,
        BenchmarkLanguage::Go,
        BenchmarkLanguage::Koka,
        BenchmarkLanguage::Effekt,
        BenchmarkLanguage::SmlNj,
        BenchmarkLanguage::MoonBit,
        BenchmarkLanguage::OCaml,
    ];
    for l in all {
        assert_eq!(BenchmarkLanguage::from_ext(l.ext()), Some(l));
    }
    assert_eq!(BenchmarkLanguage::from_ext("args"), None);
    assert_eq!(BenchmarkLanguage::from_ext("txt"), None);
    assert_eq!(BenchmarkLanguage::Scc.suffix(), "");
    assert_eq!(BenchmarkLanguage::Rust.suffix(), "rust");
}

#[test]
fn compile_excluded_language_is_unknown() {
    let b = bench("bench", &["bench.rs", "bench.go"], &[BenchmarkLanguage::Go], Config::default());
    match b.compile(BenchmarkLanguage::Go, Arch::X86_64) {
        Err(Error::UnknownLanguage { lang, action }) => {
            assert_eq!(lang, BenchmarkLanguage::Go);
            assert_eq!(action, "Compiling");
        },
        _ => panic!("expected an unknown language error"),
    }
    let absent = bench("bench", &["bench.rs"], &[], Config::default());
    assert!(matches!(
        absent.compile(BenchmarkLanguage::Koka, Arch::X86_64),
        Err(Error::UnknownLanguage { .. })
    ));
}

#[test]
fn compile_rust_is_one_compiler_run() {
    let b = bench("fib", &["fib.rs"], &[], Config::default());
    let steps = b.compile(BenchmarkLanguage::Rust, Arch::X86_64).unwrap();
    assert_eq!(steps.len(), 2);
    match &steps[0] {
        Step::EnsureDir(p) => assert_eq!(p, "target_scc/bin_x86_64"),
        _ => panic!("expected a directory step"),
    }
    match &steps[1] {
        Step::Exec(c) => {
            assert_eq!(c.program, "rustc");
            assert_eq!(
                args_of(c),
                vec!["-C", "opt-level=3", "-o", "target_scc/bin_x86_64/fib_rust", "benchmarks/fib/fib.rs"]
            );
            assert_eq!(c.dir, None);
        },
        _ => panic!("expected a compiler run"),
    }
}

#[test]
fn compile_scc_passes_heap_hint() {
    let b = bench("fib", &["fib.sc"], &[], config(&[], &[], 5, Some(4096)));
    let steps = b.compile(BenchmarkLanguage::Scc, Arch::Aarch64).unwrap();
    match &steps[1] {
        Step::Exec(c) => {
            assert_eq!(c.program, "scc");
            assert_eq!(
                args_of(c),
                vec!["benchmarks/fib/fib.sc", "-o", "target_scc/bin_aarch64/fib", "--heap-size", "4096"]
            );
        },
        _ => panic!("expected a compiler run"),
    }
}

#[test]
fn compile_koka_makes_binary_executable() {
    let b = bench("fib", &["fib.kk"], &[], Config::default());
    let steps = b.compile(BenchmarkLanguage::Koka, Arch::X86_64).unwrap();
    assert_eq!(steps.len(), 3);
    match &steps[2] {
        Step::MakeExecutable(p) => assert_eq!(p, "target_scc/bin_x86_64/fib_koka"),
        _ => panic!("expected a permission step"),
    }
}

#[test]
fn compile_moonbit_uses_workspace() {
    let b = bench("fib", &["fib.mbt"], &[], Config::default());
    let steps = b.compile(BenchmarkLanguage::MoonBit, Arch::X86_64).unwrap();
    assert_eq!(steps.len(), 5);
    match &steps[0] {
        Step::EnsureDir(p) => assert_eq!(p, "target_scc/moon_workspace"),
        _ => panic!("expected the workspace to be created first"),
    }
    match &steps[1] {
        Step::Copy { from, to } => {
            assert_eq!(from, "benchmarks/fib/fib.mbt");
            assert_eq!(to, "target_scc/moon_workspace/working.mbt");
        },
        _ => panic!("expected a copy"),
    }
    match &steps[2] {
        Step::Exec(c) => {
            assert_eq!(c.program, "moon");
            assert_eq!(args_of(c), vec!["build", "--target", "native", "--release"]);
            assert_eq!(c.dir.as_deref(), Some("target_scc/moon_workspace"));
        },
        _ => panic!("expected a build"),
    }
    match &steps[4] {
        Step::Rename { from, to } => {
            assert_eq!(from, "target_scc/moon_workspace/target/native/release/build/benchmoon.exe");
            assert_eq!(to, "target_scc/bin_x86_64/fib_moonbit");
        },
        _ => panic!("expected a move"),
    }
}

fn plan_text(steps: &[Step]) -> Vec<String> {
    steps
        .iter()
        .map(|s| match s {
            Step::EnsureDir(p) => format!("dir {p}"),
            Step::Copy { from, to } => format!("copy {from} {to}"),
            Step::Exec(c) => format!("exec {} {:?} {:?}", c.program, c.args, c.dir),
            Step::Rename { from, to } => format!("move {from} {to}"),
            Step::MakeExecutable(p) => format!("chmod {p}"),
        })
        .collect()
}

#[test]
fn compile_twice_gives_same_plan() {
    let b = bench("fib", &["fib.effekt", "fib.go"], &[], Config::default());
    for l in [BenchmarkLanguage::Effekt, BenchmarkLanguage::Go] {
        let first = b.compile(l, Arch::X86_64).unwrap();
        let second = b.compile(l, Arch::X86_64).unwrap();
        assert_eq!(plan_text(&first), plan_text(&second));
    }
}

#[test]
fn artifact_path_shapes() {
    let b = bench("fib", &[], &[], Config::default());
    assert_eq!(b.bin_path(BenchmarkLanguage::Go, Arch::X86_64), "target_scc/bin_x86_64/fib_go");
    assert_eq!(b.bin_path(BenchmarkLanguage::Scc, Arch::X86_64), "target_scc/bin_x86_64/fib");
    assert_eq!(
        b.bin_path(BenchmarkLanguage::Effekt, Arch::Aarch64),
        "target_scc/bin_aarch64/fib_effekt/fib"
    );
    assert_eq!(b.source_path(BenchmarkLanguage::OCaml), "benchmarks/fib/fib.ml");
    assert_eq!(b.result_path(), "results/raw/fib.csv");
}

#[test]
fn run_appends_test_or_benchmark_args() {
    let b = bench("fib", &["fib.rs"], &[], config(&["5"], &["30", "x"], 10, None));
    let t = b.run(BenchmarkLanguage::Rust, true, Arch::X86_64);
    assert_eq!(t.program, "target_scc/bin_x86_64/fib_rust");
    assert_eq!(args_of(&t), vec!["5"]);
    let r = b.run(BenchmarkLanguage::Rust, false, Arch::X86_64);
    assert_eq!(args_of(&r), vec!["30", "x"]);
}

#[test]
fn run_without_config_has_no_args() {
    let b = bench("fib", &["fib.go"], &[], Config::default());
    assert!(b.run(BenchmarkLanguage::Go, true, Arch::X86_64).args.is_empty());
    assert!(b.run(BenchmarkLanguage::Go, false, Arch::X86_64).args.is_empty());
}

#[test]
fn run_smlnj_through_loader() {
    let b = bench("fib", &["fib.sml"], &[], config(&["1"], &[], 10, None));
    let c = b.run(BenchmarkLanguage::SmlNj, true, Arch::X86_64);
    assert_eq!(c.program, "sml");
    assert_eq!(args_of(&c), vec!["@SMLload", "target_scc/bin_x86_64/fib_smlnj", "1"]);
}

#[test]
fn run_outcome_needs_success() {
    let b = bench("fib", &[], &[], Config::default());
    assert!(b.run_outcome(BenchmarkLanguage::Rust, true).is_ok());
    match b.run_outcome(BenchmarkLanguage::Rust, false) {
        Err(Error::Run { name, lang, .. }) => {
            assert_eq!(name, "fib");
            assert_eq!(lang, BenchmarkLanguage::Rust);
        },
        _ => panic!("expected a run error"),
    }
    assert!(b.hyperfine_outcome(true).is_ok());
    assert!(matches!(b.hyperfine_outcome(false), Err(Error::Hyperfine { .. })));
}

#[test]
fn hyperfine_invocation() {
    let b = bench("fib", &["fib.sml"], &[], config(&[], &["30", "2"], 7, None));
    let c = b.run_hyperfine_all(Arch::X86_64).unwrap();
    assert_eq!(c.program, "hyperfine");
    assert_eq!(
        args_of(&c),
        vec![
            "sml @SMLload target_scc/bin_x86_64/fib_smlnj 30 2",
            "--runs",
            "7",
            "--warmup",
            "3",
            "--export-csv",
            "results/raw/fib.csv"
        ]
    );
}

#[test]
fn hyperfine_one_command_per_language() {
    let b = bench("fib", &["fib.rs", "fib.sc"], &[], config(&[], &[], 12, None));
    let c = b.run_hyperfine_all(Arch::Aarch64).unwrap();
    assert_eq!(c.args.len(), 8);
    let mut calls: Vec<&str> = args_of(&c)[..2].to_vec();
    calls.sort();
    assert_eq!(calls, vec!["target_scc/bin_aarch64/fib", "target_scc/bin_aarch64/fib_rust"]);
    assert_eq!(c.args[3], "12");
}

#[test]
fn decimal_notation() {
    assert_eq!(decimal_string(0), "0");
    assert_eq!(decimal_string(7), "7");
    assert_eq!(decimal_string(10), "10");
    assert_eq!(decimal_string(1234567), "1234567");
    assert_eq!(decimal_string(u64::MAX), u64::MAX.to_string());
}

#[test]
fn step_failures_map_to_errors() {
    let b = bench("fib", &["fib.mbt", "fib.kk"], &[], Config::default());
    let moon = b.compile(BenchmarkLanguage::MoonBit, Arch::X86_64).unwrap();
    match b.step_failure(BenchmarkLanguage::MoonBit, &moon[2], "out".to_string(), "err".to_string()) {
        Error::Compile { name, lang, stdout, stderr } => {
            assert_eq!(name, "fib");
            assert_eq!(lang, BenchmarkLanguage::MoonBit);
            assert_eq!(stdout, "out");
            assert_eq!(stderr, "err");
        },
        _ => panic!("expected a compile error"),
    }
    match b.step_failure(BenchmarkLanguage::MoonBit, &moon[1], String::new(), "gone".to_string()) {
        Error::FileAccess { path, reason, .. } => {
            assert_eq!(path, "target_scc/moon_workspace/working.mbt");
            assert_eq!(reason, "gone");
        },
        _ => panic!("expected a file access error"),
    }
    match b.step_failure(BenchmarkLanguage::MoonBit, &moon[4], String::new(), String::new()) {
        Error::FileAccess { path, .. } => assert_eq!(path, "target_scc/bin_x86_64/fib_moonbit"),
        _ => panic!("expected a file access error"),
    }
    let koka = b.compile(BenchmarkLanguage::Koka, Arch::X86_64).unwrap();
    match b.step_failure(BenchmarkLanguage::Koka, &koka[2], String::new(), String::new()) {
        Error::PathAccess { path, .. } => assert_eq!(path, "target_scc/bin_x86_64/fib_koka"),
        _ => panic!("expected a path access error"),
    }
    match b.step_failure(BenchmarkLanguage::Koka, &koka[0], String::new(), "denied".to_string()) {
        Error::FileAccess { path, reason, .. } => {
            assert_eq!(path, "target_scc/bin_x86_64");
            assert_eq!(reason, "denied");
        },
        _ => panic!("expected a file access error"),
    }
}

#[test]
fn results_exist_follows_file() {
    let b = bench("fib", &[], &[], Config::default());
    assert_eq!(b.results_exist(None, true).unwrap(), true);
    assert_eq!(b.results_exist(None, false).unwrap(), false);
    match b.results_exist(Some("denied".to_string()), true) {
        Err(Error::FileAccess { path, reason, .. }) => {
            assert_eq!(path, "results/raw");
            assert_eq!(reason, "denied");
        },
        _ => panic!("expected a file access error"),
    }
}

#[test]
fn default_config_is_empty() {
    let c = Config::default();
    assert!(c.test_args.is_empty());
    assert!(c.args.is_empty());
    assert_eq!(c.runs, 10);
    assert_eq!(c.heap_size, None);
}

fn dir(name: &str, files: &[&str]) -> SuiteEntry {
    SuiteEntry {
        name: name.to_string(),
        is_dir: true,
        listing: Ok(Listing { files: listing(files), config: Config::default() }),
    }
}

fn unreadable(name: &str, is_dir: bool) -> SuiteEntry {
    SuiteEntry {
        name: name.to_string(),
        is_dir,
        listing: Err(Error::ReadDir { path: format!("benchmarks/{name}"), reason: "denied".to_string() }),
    }
}

fn broken(name: &str) -> SuiteEntry {
    SuiteEntry {
        name: name.to_string(),
        is_dir: true,
        listing: Ok(Listing { files: vec![FileName::NotText(ExtStatus::NotText)], config: Config::default() }),
    }
}

#[test]
fn load_all_skips_excluded_and_files() {
    let entries = vec![
        dir("fib", &["fib.rs", "fib.go"]),
        broken("foo"),
        unreadable("notes.md", false),
        dir("nbody", &["nbody.kk"]),
    ];
    let bs = Benchmark::load_all(&[BenchmarkLanguage::Go], &strings(&["foo"]), entries).unwrap();
    assert_eq!(bs.len(), 2);
    assert_eq!(bs[0].name, "fib");
    assert_eq!(bs[0].languages, vec![BenchmarkLanguage::Rust]);
    assert_eq!(bs[1].name, "nbody");
    assert_eq!(bs[1].languages, vec![BenchmarkLanguage::Koka]);
}

#[test]
fn load_all_without_exclusions_takes_every_directory() {
    let entries = vec![dir("fib", &["fib.rs"]), unreadable("README", false), dir("foo", &["foo.go"])];
    let bs = Benchmark::load_all(&[], &[], entries).unwrap();
    let names: Vec<&str> = bs.iter().map(|b| b.name.as_str()).collect();
    assert_eq!(names, vec!["fib", "foo"]);
}

#[test]
fn load_all_stops_at_first_failure() {
    let entries = vec![dir("fib", &["fib.rs"]), broken("bad"), unreadable("worse", true)];
    match Benchmark::load_all(&[], &[], entries) {
        Err(Error::PathAccess { path, .. }) => assert_eq!(path, "benchmarks/bad"),
        _ => panic!("expected a path access error"),
    }
    let entries = vec![dir("fib", &["fib.rs"]), unreadable("worse", true), broken("bad")];
    match Benchmark::load_all(&[], &[], entries) {
        Err(Error::ReadDir { path, .. }) => assert_eq!(path, "benchmarks/worse"),
        _ => panic!("expected a read error"),
    }
}

fn drive(b: &Benchmark, fail_at: Option<usize>, compile: bool) -> (Vec<BenchmarkLanguage>, Result<(), Error>) {
    let mut seen = vec![];
    let mut failure = None;
    let mut completed = 0;
    loop {
        let next = if compile { b.compile_all(completed, failure) } else { b.run_all(completed, failure) };
        match next {
            Next::Variant(l) => {
                seen.push(l);
                failure = if fail_at == Some(completed) { b.run_outcome(l, false).err() } else { None };
                completed += 1;
            },
            Next::Finished(r) => return (seen, r),
        }
    }
}

#[test]
fn all_languages_pass_in_order() {
    let b = bench("fib", &["fib.rs", "fib.go", "fib.kk"], &[], Config::default());
    let (seen, r) = drive(&b, None, true);
    assert_eq!(seen, b.languages);
    assert!(r.is_ok());
}

#[test]
fn first_failure_stops_the_pass() {
    let b = bench("fib", &["fib.rs", "fib.go", "fib.kk"], &[], Config::default());
    let (seen, r) = drive(&b, Some(1), false);
    assert_eq!(seen, b.languages[..2].to_vec());
    match r {
        Err(Error::Run { lang, .. }) => assert_eq!(lang, b.languages[1]),
        _ => panic!("expected a run error"),
    }
}

#[test]
fn empty_benchmark_pass_succeeds() {
    let b = bench("fib", &[], &[], Config::default());
    let (seen, r) = drive(&b, None, false);
    assert!(seen.is_empty());
    assert!(r.is_ok());
}

#[test]
fn parse_config_settings() {
    let c = Config::parse("args 30 2\ntest_args  5\nruns 7\nheap_size 4096\n");
    assert_eq!(c.args, strings(&["30", "2"]));
    assert_eq!(c.test_args, strings(&["5"]));
    assert_eq!(c.runs, 7);
    assert_eq!(c.heap_size, Some(4096));
}

#[test]
fn parse_config_keeps_defaults() {
    let c = Config::parse("");
    assert!(c.args.is_empty());
    assert!(c.test_args.is_empty());
    assert_eq!(c.runs, 10);
    assert_eq!(c.heap_size, None);
    let d = Config::parse("runs 0\nruns x\nheap_size 1 2\ncolor blue\n\n");
    assert_eq!(d.runs, 10);
    assert_eq!(d.heap_size, None);
    assert!(d.args.is_empty());
}

#[test]
fn parse_config_later_line_wins() {
    let c = Config::parse("runs 3\nargs a\nruns 5\nargs");
    assert_eq!(c.runs, 5);
    assert!(c.args.is_empty());
    let big = Config::parse("heap_size 18446744073709551616");
    assert_eq!(big.heap_size, None);
    let max = Config::parse("heap_size 18446744073709551615");
    assert_eq!(max.heap_size, Some(u64::MAX));
}
